//! The execute engine: fetch, dispatch and the semantics of every opcode.
//!
//! The machine's mathematical state is `MState`; `step` is the semantics of
//! one complete execution cycle of any instruction other than a system
//! call, instruction-pointer update included. `run_next` is proved to
//! follow `step` exactly; a system call defers to the host handler, of
//! which only its framing is known.

use vstd::bytes::spec_u64_from_le_bytes;
use vstd::bytes::spec_u64_to_le_bytes;
use vstd::prelude::*;

use crate::error::VMError;
use crate::float_bits::add_f64_bits;
use crate::float_bits::cmpf_bits;
use crate::float_bits::compare_f64_bits;
use crate::float_bits::convert_i64_to_f64_bits;
use crate::float_bits::div_f64_bits;
use crate::float_bits::f2i_bits;
use crate::float_bits::f64_add_bits;
use crate::float_bits::f64_div_bits;
use crate::float_bits::f64_mul_bits;
use crate::float_bits::f64_sub_bits;
use crate::float_bits::i64_to_f64_bits;
use crate::float_bits::mul_f64_bits;
use crate::float_bits::sub_f64_bits;
use crate::float_bits::truncate_f64_bits;
use crate::instruction::Instruction;
use crate::instruction_arguments::Address;
use crate::instruction_arguments::Immediate;
use crate::instruction_arguments::Register;
use crate::vm::memory::insert_desc;
use crate::vm::memory::mem_wf;
use crate::vm::memory::zeros;
use crate::vm::memory::Memory;
use crate::vm::registers::Registers;
use crate::vm::stack::spec_get_top_u64;
use crate::vm::stack::spec_insert;
use crate::vm::stack::Stack;

verus! {

/// How integer arithmetic treats overflow: wrap around, clamp at the type
/// bounds, or report an error.
#[derive(Clone, Copy, PartialEq, Eq, Debug, Structural)]
pub enum OverflowBehaviour {
    Wrapping,
    Clamping,
    Reporting,
}

impl Default for OverflowBehaviour {
    /// Clamping arithmetic.
    fn default() -> (r: OverflowBehaviour)
        ensures
            r == OverflowBehaviour::Clamping,
    {
        OverflowBehaviour::Clamping
    }
}

/// The mathematical state of the machine: heap blocks and freed addresses,
/// stack bytes, register values, the instruction list, the instruction
/// pointer, the halt flag and the overflow behaviour.
#[verifier::ext_equal]
pub ghost struct MState {
    pub mem: Map<u64, Seq<u8>>,
    pub freed: Seq<u64>,
    pub stack: Seq<u8>,
    pub regs: Seq<u64>,
    pub instrs: Seq<Instruction>,
    pub ip: int,
    pub halted: bool,
    pub behaviour: OverflowBehaviour,
}

/// The register bank index of `r`.
pub open spec fn rix(r: Register) -> int {
    r.idx() as int
}

/// The value of register `r`.
pub open spec fn rg(s: MState, r: Register) -> u64 {
    s.regs[rix(r)]
}

/// The state with register `r` set to `v`.
pub open spec fn wr(s: MState, r: Register, v: u64) -> MState {
    MState { regs: s.regs.update(rix(r), v), ..s }
}

/// The state with the instruction pointer advanced past the current
/// instruction.
pub open spec fn adv(s: MState) -> MState {
    MState { ip: s.ip + 1, ..s }
}

/// The state after a jump to instruction index `a`.
pub open spec fn jump_to(s: MState, a: u64) -> MState {
    MState { ip: (a as usize) as int, ..s }
}

/// The state with the three condition bits of the flags register replaced
/// by `v`; the upper bits are preserved.
pub open spec fn set_flags(s: MState, v: u64) -> MState {
    MState {
        regs: s.regs.update(3, (s.regs[3] & 0xFFFFFFFFFFFFFFF8) | v),
        ..s
    }
}

/// The condition bits an integer comparison produces.
pub open spec fn cmp_bits_u64(l: u64, r: u64) -> u64 {
    if l == r {
        0b001u64
    } else if l < r {
        0b010u64
    } else {
        0b100u64
    }
}

/// The condition bits a signed integer comparison produces.
pub open spec fn cmp_bits_i64(l: i64, r: i64) -> u64 {
    if l == r {
        0b001u64
    } else if l < r {
        0b010u64
    } else {
        0b100u64
    }
}

/// The state and outcome of pushing the 8 little-endian bytes of `value`
/// at the frame pointer: on success the frame pointer advances by 8; a
/// write past the stack's end fails, keeping the bytes that fit.
pub open spec fn spec_push(s: MState, value: u64) -> (MState, Option<VMError>) {
    let rfp = s.regs[1];
    let ins = spec_insert(s.stack, rfp, spec_u64_to_le_bytes(value));
    let s2 = MState { stack: ins.0, ..s };
    if !ins.1 {
        (s2, Some(VMError::AccessBeyondStackBounds))
    } else {
        (MState { regs: s2.regs.update(1, (rfp + 8) as u64), ..s2 }, None)
    }
}

/// The state, outcome and value of popping the 8 bytes below the frame
/// pointer: on success the frame pointer retreats by 8.
pub open spec fn spec_pop(s: MState) -> (MState, Option<VMError>, u64) {
    let rfp = s.regs[1];
    match spec_get_top_u64(s.stack, rfp) {
        Some(v) => (MState { regs: s.regs.update(1, (rfp - 8) as u64), ..s }, None, v),
        None => (s, Some(VMError::AccessBeyondStackBounds), 0u64),
    }
}

/// The address the next allocation will use: the smallest freed address,
/// else the count of live blocks.
pub open spec fn alloc_addr(s: MState) -> u64 {
    if s.freed.len() > 0 {
        s.freed.last()
    } else {
        s.mem.dom().len() as u64
    }
}

/// The freed list after one allocation.
pub open spec fn alloc_freed(s: MState) -> Seq<u64> {
    if s.freed.len() > 0 {
        s.freed.drop_last()
    } else {
        s.freed
    }
}

/// The state after allocating `block` at the next free address, with the
/// address written to register `r`.
pub open spec fn spec_alloc(s: MState, block: Seq<u8>, r: Register) -> MState {
    let addr = alloc_addr(s);
    let s2 = MState { mem: s.mem.insert(addr, block), freed: alloc_freed(s), ..s };
    wr(s2, r, addr)
}

/// A block with the `bytes.len()` bytes starting at `start` replaced by
/// `bytes`.
pub open spec fn write_block(block: Seq<u8>, start: u64, bytes: Seq<u8>) -> Seq<u8> {
    Seq::new(
        block.len(),
        |j: int|
            if start <= j < start + bytes.len() {
                bytes[j - start]
            } else {
                block[j]
            },
    )
}

/// The little-endian 64-bit value held at byte offset `off` of `block`.
pub open spec fn le8_at(block: Seq<u8>, off: u64) -> u64 {
    spec_u64_from_le_bytes(block.subrange(off as int, off + 8))
}

/// Saturating signed 64-bit addition.
pub open spec fn sat_add_i64(x: i64, y: i64) -> i64 {
    if x + y > i64::MAX {
        i64::MAX
    } else if x + y < i64::MIN {
        i64::MIN
    } else {
        (x + y) as i64
    }
}

/// Saturating signed 64-bit subtraction.
pub open spec fn sat_sub_i64(x: i64, y: i64) -> i64 {
    if x - y > i64::MAX {
        i64::MAX
    } else if x - y < i64::MIN {
        i64::MIN
    } else {
        (x - y) as i64
    }
}

/// Saturating signed 64-bit multiplication.
pub open spec fn sat_mul_i64(x: i64, y: i64) -> i64 {
    if x * y > i64::MAX {
        i64::MAX
    } else if x * y < i64::MIN {
        i64::MIN
    } else {
        (x * y) as i64
    }
}

/// Signed addition under the given overflow behaviour.
pub open spec fn spec_add_i64(b: OverflowBehaviour, x: i64, y: i64) -> Result<i64, VMError> {
    match b {
        OverflowBehaviour::Wrapping => Ok(x.wrapping_add(y)),
        OverflowBehaviour::Clamping => Ok(sat_add_i64(x, y)),
        OverflowBehaviour::Reporting => match x.checked_add(y) {
            Some(v) => Ok(v),
            None => Err(VMError::IntegerOverflowError),
        },
    }
}

/// Signed subtraction under the given overflow behaviour.
pub open spec fn spec_sub_i64(b: OverflowBehaviour, x: i64, y: i64) -> Result<i64, VMError> {
    match b {
        OverflowBehaviour::Wrapping => Ok(x.wrapping_sub(y)),
        OverflowBehaviour::Clamping => Ok(sat_sub_i64(x, y)),
        OverflowBehaviour::Reporting => match x.checked_sub(y) {
            Some(v) => Ok(v),
            None => Err(VMError::IntegerOverflowError),
        },
    }
}

/// Signed multiplication under the given overflow behaviour.
pub open spec fn spec_mul_i64(b: OverflowBehaviour, x: i64, y: i64) -> Result<i64, VMError> {
    match b {
        OverflowBehaviour::Wrapping => Ok(x.wrapping_mul(y)),
        OverflowBehaviour::Clamping => Ok(sat_mul_i64(x, y)),
        OverflowBehaviour::Reporting => match x.checked_mul(y) {
            Some(v) => Ok(v),
            None => Err(VMError::IntegerOverflowError),
        },
    }
}

/// Signed division: division by zero is an overflow error in every mode;
/// the one overflowing quotient wraps under wrapping behaviour and is an
/// error otherwise.
pub open spec fn spec_div_i64(b: OverflowBehaviour, x: i64, y: i64) -> Result<i64, VMError> {
    if y == 0 {
        Err(VMError::IntegerOverflowError)
    } else {
        match x.checked_div(y) {
            Some(v) => Ok(v),
            None => match b {
                OverflowBehaviour::Wrapping => Ok(i64::MIN),
                _ => Err(VMError::IntegerOverflowError),
            },
        }
    }
}

/// Signed remainder: a zero divisor is always a modulo-by-zero error; the
/// one overflowing case yields zero under wrapping behaviour and is an
/// error otherwise.
pub open spec fn spec_mod_i64(b: OverflowBehaviour, x: i64, y: i64) -> Result<i64, VMError> {
    if y == 0 {
        Err(VMError::AttemptedModuloZeroOperation)
    } else {
        match x.checked_rem(y) {
            Some(v) => Ok(v),
            None => match b {
                OverflowBehaviour::Wrapping => Ok(0i64),
                _ => Err(VMError::IntegerOverflowError),
            },
        }
    }
}

/// Unsigned addition under the given overflow behaviour.
pub open spec fn spec_add_u64(b: OverflowBehaviour, x: u64, y: u64) -> Result<u64, VMError> {
    match b {
        OverflowBehaviour::Wrapping => Ok(x.wrapping_add(y)),
        OverflowBehaviour::Clamping => Ok(x.saturating_add(y)),
        OverflowBehaviour::Reporting => match x.checked_add(y) {
            Some(v) => Ok(v),
            None => Err(VMError::IntegerOverflowError),
        },
    }
}

/// Unsigned subtraction under the given overflow behaviour.
pub open spec fn spec_sub_u64(b: OverflowBehaviour, x: u64, y: u64) -> Result<u64, VMError> {
    match b {
        OverflowBehaviour::Wrapping => Ok(x.wrapping_sub(y)),
        OverflowBehaviour::Clamping => Ok(x.saturating_sub(y)),
        OverflowBehaviour::Reporting => match x.checked_sub(y) {
            Some(v) => Ok(v),
            None => Err(VMError::IntegerOverflowError),
        },
    }
}

/// Unsigned multiplication under the given overflow behaviour.
pub open spec fn spec_mul_u64(b: OverflowBehaviour, x: u64, y: u64) -> Result<u64, VMError> {
    match b {
        OverflowBehaviour::Wrapping => Ok(x.wrapping_mul(y)),
        OverflowBehaviour::Clamping => match x.checked_mul(y) {
            Some(v) => Ok(v),
            None => Ok(u64::MAX),
        },
        OverflowBehaviour::Reporting => match x.checked_mul(y) {
            Some(v) => Ok(v),
            None => Err(VMError::IntegerOverflowError),
        },
    }
}

/// Unsigned division: division by zero is an overflow error in every
/// mode; unsigned quotients never overflow.
pub open spec fn spec_div_u64(b: OverflowBehaviour, x: u64, y: u64) -> Result<u64, VMError> {
    if y == 0 {
        Err(VMError::IntegerOverflowError)
    } else {
        Ok((x as int / y as int) as u64)
    }
}

/// Unsigned remainder: a zero divisor is always a modulo-by-zero error.
pub open spec fn spec_mod_u64(b: OverflowBehaviour, x: u64, y: u64) -> Result<u64, VMError> {
    if y == 0 {
        Err(VMError::AttemptedModuloZeroOperation)
    } else {
        Ok((x as int % y as int) as u64)
    }
}

/// A 64-bit rotation left by `n` bit positions.
pub open spec fn spec_rotl(v: u64, n: u32) -> u64 {
    let sh = (n % 64) as u64;
    if sh == 0 {
        v
    } else {
        (v << sh) | (v >> (64 - sh))
    }
}

/// A 64-bit rotation right by `n` bit positions.
pub open spec fn spec_rotr(v: u64, n: u32) -> u64 {
    let sh = (n % 64) as u64;
    if sh == 0 {
        v
    } else {
        (v >> sh) | (v << (64 - sh))
    }
}

/// The rotation count an instruction operand selects: counts above the
/// 32-bit range are pinned to the largest 32-bit value.
pub open spec fn rot_count(raw: u64) -> u32 {
    if raw > u32::MAX {
        u32::MAX
    } else {
        raw as u32
    }
}

/// A logical left shift; shifting by 64 or more clears the value.
pub open spec fn spec_shl(v: u64, sh: u64) -> u64 {
    if sh >= 64 {
        0u64
    } else {
        v << sh
    }
}

/// A logical right shift; shifting by 64 or more clears the value.
pub open spec fn spec_shr(v: u64, sh: u64) -> u64 {
    if sh >= 64 {
        0u64
    } else {
        v >> sh
    }
}

/// One step of the byte-by-byte heap copy: bytes `i..n` are still to move
/// from offset `soff + i` of the block at `src` to offset `doff + i` of
/// the block at `dest`; the copy stops at the first failing read or write,
/// keeping the bytes already written.
pub open spec fn spec_copy(
    mem: Map<u64, Seq<u8>>,
    dest: u64,
    doff: u64,
    src: u64,
    soff: u64,
    n: u64,
    i: u64,
) -> (Map<u64, Seq<u8>>, Option<VMError>)
    decreases n - i,
{
    if i >= n {
        (mem, None)
    } else {
        let so = (soff + i) as u64;
        let doo = (doff + i) as u64;
        match Memory::spec_get(mem, src, so) {
            Err(e) => (mem, Some(e)),
            Ok(byte) => if !mem.contains_key(dest) {
                (mem, Some(VMError::FailedSetNoAddressError(dest)))
            } else if doo >= mem[dest].len() {
                (mem, Some(VMError::IndexBeyondBoundsError(doo, mem[dest].len() as u64)))
            } else {
                spec_copy(
                    mem.insert(dest, mem[dest].update(doo as int, byte)),
                    dest,
                    doff,
                    src,
                    soff,
                    n,
                    (i + 1) as u64,
                )
            },
        }
    }
}

/// The semantics of one full execution cycle of `instr` from state `s`:
/// the state afterwards and the error of the cycle, if it failed. A failed
/// cycle keeps whatever partial effects it had, as execution does, and
/// leaves the instruction pointer unmoved. System calls are dispatched to
/// the host handler and are not described here.
pub open spec fn step(s: MState, instr: Instruction) -> (MState, Option<VMError>) {
    match instr {
        Instruction::Nop => (adv(s), None),
        // a system call is dispatched through the host handler; the
        // dispatcher never consults this arm
        Instruction::Syscall(_) => (s, None),
        Instruction::Ldb(i, r) => (adv(wr(s, r, i.bits & 0xFF)), None),
        Instruction::Ldi(i, r) => (adv(wr(s, r, i.bits)), None),
        Instruction::Ldf(i, r) => (adv(wr(s, r, i.bits)), None),
        Instruction::Mov(r, r1) => (adv(wr(s, r, rg(s, r1))), None),
        Instruction::Push(r) => {
            let p = spec_push(s, rg(s, r));
            match p.1 {
                None => (adv(p.0), None),
                Some(e) => (p.0, Some(e)),
            }
        },
        Instruction::Pop(r) => {
            let p = spec_pop(s);
            match p.1 {
                None => (adv(wr(p.0, r, p.2)), None),
                Some(e) => (p.0, Some(e)),
            }
        },
        Instruction::Sget(r, r1) => {
            match spec_get_top_u64(s.stack, rg(s, r1)) {
                Some(v) => (adv(wr(s, r, v)), None),
                None => (s, Some(VMError::AccessBeyondStackBounds)),
            }
        },
        Instruction::Malloc(r, r1) => (
            adv(spec_alloc(s, zeros(rg(s, r1) as nat), r)),
            None,
        ),
        Instruction::Malloci(i, r) => (adv(spec_alloc(s, zeros(i.bits as nat), r)), None),
        Instruction::Free(r) => {
            let addr = rg(s, r);
            if s.mem.contains_key(addr) {
                (
                    adv(
                        MState {
                            mem: s.mem.remove(addr),
                            freed: insert_desc(s.freed, addr),
                            ..s
                        },
                    ),
                    None,
                )
            } else {
                (s, Some(VMError::FailedFreeNoAddressError(addr)))
            }
        },
        Instruction::Freea(a) => {
            let addr = a.bits;
            if s.mem.contains_key(addr) {
                (
                    adv(
                        MState {
                            mem: s.mem.remove(addr),
                            freed: insert_desc(s.freed, addr),
                            ..s
                        },
                    ),
                    None,
                )
            } else {
                (s, Some(VMError::FailedFreeNoAddressError(addr)))
            }
        },
        Instruction::Setb(r, r1, r2) => spec_store_byte(s, rg(s, r), rg(s, r1), rg(s, r2)),
        Instruction::Seti(r, r1, r2) => spec_store_word(s, rg(s, r), rg(s, r1), rg(s, r2)),
        Instruction::Isetb(i, r, r1) => spec_store_byte(s, rg(s, r), i.bits, rg(s, r1)),
        Instruction::Iseti(i, r, r1) => spec_store_word(s, rg(s, r), i.bits, rg(s, r1)),
        Instruction::Getb(r, r1, r2) => spec_load_byte(s, r, rg(s, r1), rg(s, r2)),
        Instruction::Geti(r, r1, r2) => spec_load_word(s, r, rg(s, r1), rg(s, r2)),
        Instruction::Igetb(i, r, r1) => spec_load_byte(s, r, rg(s, r1), i.bits),
        Instruction::Igeti(i, r, r1) => spec_load_word(s, r, rg(s, r1), i.bits),
        Instruction::Last(r, r1) => {
            let addr = rg(s, r1);
            if !s.mem.contains_key(addr) {
                (s, Some(VMError::FailedGetNoAddressError(addr)))
            } else {
                let block = s.mem[addr];
                if block.len() == 0 {
                    (s, Some(VMError::IndexBeyondBoundsError(1, 0)))
                } else if block.len() < 8 {
                    (adv(wr(s, r, block.last() as u64)), None)
                } else {
                    (
                        adv(
                            wr(
                                s,
                                r,
                                spec_u64_from_le_bytes(
                                    block.subrange(block.len() - 8, block.len() as int),
                                ),
                            ),
                        ),
                        None,
                    )
                }
            }
        },
        Instruction::Length(r, r1) => {
            let addr = rg(s, r1);
            if !s.mem.contains_key(addr) {
                (s, Some(VMError::FailedGetNoAddressError(addr)))
            } else {
                (adv(wr(s, r, s.mem[addr].len() as u64)), None)
            }
        },
        Instruction::Clone(r, r1) => {
            let src = rg(s, r1);
            if !s.mem.contains_key(src) {
                (s, Some(VMError::FailedGetNoAddressError(src)))
            } else {
                (adv(spec_alloc(s, s.mem[src], r)), None)
            }
        },
        Instruction::Copy(r, r1, r2, r3, r4) => {
            let c = spec_copy(s.mem, rg(s, r), rg(s, r1), rg(s, r2), rg(s, r3), rg(s, r4), 0);
            let s2 = MState { mem: c.0, ..s };
            match c.1 {
                None => (adv(s2), None),
                Some(e) => (s2, Some(e)),
            }
        },
        Instruction::Copyi(i, i1, i2, r, r1) => {
            let c = spec_copy(s.mem, rg(s, r), i.bits, rg(s, r1), i1.bits, i2.bits, 0);
            let s2 = MState { mem: c.0, ..s };
            match c.1 {
                None => (adv(s2), None),
                Some(e) => (s2, Some(e)),
            }
        },
        Instruction::Addi(r, r1, r2) => spec_arith(
            s,
            r,
            spec_add_i64(s.behaviour, rg(s, r1) as i64, rg(s, r2) as i64),
        ),
        Instruction::Subi(r, r1, r2) => spec_arith(
            s,
            r,
            spec_sub_i64(s.behaviour, rg(s, r1) as i64, rg(s, r2) as i64),
        ),
        Instruction::Muli(r, r1, r2) => spec_arith(
            s,
            r,
            spec_mul_i64(s.behaviour, rg(s, r1) as i64, rg(s, r2) as i64),
        ),
        Instruction::Divi(r, r1, r2) => spec_arith(
            s,
            r,
            spec_div_i64(s.behaviour, rg(s, r1) as i64, rg(s, r2) as i64),
        ),
        Instruction::Modi(r, r1, r2) => spec_arith(
            s,
            r,
            spec_mod_i64(s.behaviour, rg(s, r1) as i64, rg(s, r2) as i64),
        ),
        Instruction::Addu(r, r1, r2) => spec_arith_u(
            s,
            r,
            spec_add_u64(s.behaviour, rg(s, r1), rg(s, r2)),
        ),
        Instruction::Subu(r, r1, r2) => spec_arith_u(
            s,
            r,
            spec_sub_u64(s.behaviour, rg(s, r1), rg(s, r2)),
        ),
        Instruction::Mulu(r, r1, r2) => spec_arith_u(
            s,
            r,
            spec_mul_u64(s.behaviour, rg(s, r1), rg(s, r2)),
        ),
        Instruction::Divu(r, r1, r2) => spec_arith_u(
            s,
            r,
            spec_div_u64(s.behaviour, rg(s, r1), rg(s, r2)),
        ),
        Instruction::Modu(r, r1, r2) => spec_arith_u(
            s,
            r,
            spec_mod_u64(s.behaviour, rg(s, r1), rg(s, r2)),
        ),
        Instruction::Addf(r, r1, r2) => (adv(wr(s, r, f64_add_bits(rg(s, r1), rg(s, r2)))), None),
        Instruction::Subf(r, r1, r2) => (adv(wr(s, r, f64_sub_bits(rg(s, r1), rg(s, r2)))), None),
        Instruction::Mulf(r, r1, r2) => (adv(wr(s, r, f64_mul_bits(rg(s, r1), rg(s, r2)))), None),
        Instruction::Divf(r, r1, r2) => (adv(wr(s, r, f64_div_bits(rg(s, r1), rg(s, r2)))), None),
        Instruction::Rotl(r, r1) => (
            adv(wr(s, r, spec_rotl(rg(s, r), rot_count(rg(s, r1))))),
            None,
        ),
        Instruction::Rotli(i, r) => (adv(wr(s, r, spec_rotl(rg(s, r), rot_count(i.bits)))), None),
        Instruction::Rotr(r, r1) => (
            adv(wr(s, r, spec_rotr(rg(s, r), rot_count(rg(s, r1))))),
            None,
        ),
        Instruction::Rotri(i, r) => (adv(wr(s, r, spec_rotr(rg(s, r), rot_count(i.bits)))), None),
        Instruction::Sll(r, r1) => (adv(wr(s, r, spec_shl(rg(s, r), rg(s, r1)))), None),
        Instruction::Slli(i, r) => (adv(wr(s, r, spec_shl(rg(s, r), i.bits))), None),
        Instruction::Srl(r, r1) => (adv(wr(s, r, spec_shr(rg(s, r), rg(s, r1)))), None),
        Instruction::Srli(i, r) => (adv(wr(s, r, spec_shr(rg(s, r), i.bits))), None),
        Instruction::Not(r) => (adv(wr(s, r, !rg(s, r))), None),
        Instruction::And(r, r1, r2) => (adv(wr(s, r, rg(s, r1) & rg(s, r2))), None),
        Instruction::Or(r, r1, r2) => (adv(wr(s, r, rg(s, r1) | rg(s, r2))), None),
        Instruction::Xor(r, r1, r2) => (adv(wr(s, r, rg(s, r1) ^ rg(s, r2))), None),
        Instruction::Cmp(r, r1) => (adv(set_flags(s, cmp_bits_u64(rg(s, r), rg(s, r1)))), None),
        Instruction::Cmpi(r, r1) => (
            adv(set_flags(s, cmp_bits_i64(rg(s, r) as i64, rg(s, r1) as i64))),
            None,
        ),
        Instruction::Cmpf(r, r1) => (adv(set_flags(s, cmpf_bits(rg(s, r), rg(s, r1)))), None),
        Instruction::Jmp(a) => (jump_to(s, a.bits), None),
        Instruction::Jeq(a) => {
            if s.regs[3] & 0b001 == 1 {
                (jump_to(s, a.bits), None)
            } else {
                (adv(s), None)
            }
        },
        Instruction::Jne(a) => {
            if s.regs[3] & 0b001 == 0 {
                (jump_to(s, a.bits), None)
            } else {
                (adv(s), None)
            }
        },
        Instruction::Jge(a) => {
            if (s.regs[3] & 0b100) >> 2 == 1 || s.regs[3] & 0b001 == 1 {
                (jump_to(s, a.bits), None)
            } else {
                (adv(s), None)
            }
        },
        Instruction::Jgt(a) => {
            if (s.regs[3] & 0b100) >> 2 == 1 {
                (jump_to(s, a.bits), None)
            } else {
                (adv(s), None)
            }
        },
        Instruction::Jle(a) => {
            if (s.regs[3] & 0b010) >> 1 == 1 || s.regs[3] & 0b001 == 1 {
                (jump_to(s, a.bits), None)
            } else {
                (adv(s), None)
            }
        },
        Instruction::Jlt(a) => {
            if (s.regs[3] & 0b010) >> 1 == 1 {
                (jump_to(s, a.bits), None)
            } else {
                (adv(s), None)
            }
        },
        Instruction::I2f(r) => (adv(wr(s, r, i64_to_f64_bits(rg(s, r)))), None),
        Instruction::F2i(r) => (adv(wr(s, r, f2i_bits(rg(s, r)))), None),
        Instruction::Swpa(a, a1) => spec_swap(s, a.bits, a1.bits),
        Instruction::Swpar(r, r1) => spec_swap(s, rg(s, r), rg(s, r1)),
        Instruction::Swpr(r, r1) => {
            let temp = rg(s, r);
            (adv(wr(wr(s, r, rg(s, r1)), r1, temp)), None)
        },
        Instruction::Call(a) => {
            let p1 = spec_push(s, s.regs[1]);
            match p1.1 {
                Some(e) => (p1.0, Some(e)),
                None => {
                    let p2 = spec_push(p1.0, p1.0.regs[0]);
                    match p2.1 {
                        Some(e) => (p2.0, Some(e)),
                        None => {
                            let p3 = spec_push(p2.0, (s.ip + 1) as u64);
                            match p3.1 {
                                Some(e) => (p3.0, Some(e)),
                                None => {
                                    let s4 = MState {
                                        regs: p3.0.regs.update(0, p3.0.regs[1]),
                                        ..p3.0
                                    };
                                    (jump_to(s4, a.bits), None)
                                },
                            }
                        },
                    }
                },
            }
        },
        Instruction::Ret => {
            let p1 = spec_pop(s);
            match p1.1 {
                Some(e) => (p1.0, Some(e)),
                None => {
                    let p2 = spec_pop(p1.0);
                    match p2.1 {
                        Some(e) => (p2.0, Some(e)),
                        None => {
                            let p3 = spec_pop(p2.0);
                            match p3.1 {
                                Some(e) => (p3.0, Some(e)),
                                None => {
                                    let s4 = MState {
                                        regs: p3.0.regs.update(0, p2.2).update(1, p3.2),
                                        ip: (p1.2 as usize) as int,
                                        ..p3.0
                                    };
                                    (s4, None)
                                },
                            }
                        },
                    }
                },
            }
        },
        Instruction::Halt => (adv(MState { halted: true, ..s }), None),
    }
}

/// Writing the low byte of `value` at offset `index` of the block at
/// `address`.
pub open spec fn spec_store_byte(s: MState, address: u64, index: u64, value: u64) -> (
    MState,
    Option<VMError>,
) {
    if !s.mem.contains_key(address) {
        (s, Some(VMError::FailedSetNoAddressError(address)))
    } else if index >= s.mem[address].len() {
        (s, Some(VMError::IndexBeyondBoundsError(index, s.mem[address].len() as u64)))
    } else {
        (
            adv(
                MState {
                    mem: s.mem.insert(
                        address,
                        s.mem[address].update(index as int, (value & 0xFF) as u8),
                    ),
                    ..s
                },
            ),
            None,
        )
    }
}

/// Writing the 8 little-endian bytes of `value` at offset `index` of the
/// block at `address`; a write whose end would touch or pass the block's
/// last byte is rejected.
pub open spec fn spec_store_word(s: MState, address: u64, index: u64, value: u64) -> (
    MState,
    Option<VMError>,
) {
    if !s.mem.contains_key(address) {
        (s, Some(VMError::FailedSetNoAddressError(address)))
    } else if index + 8 >= s.mem[address].len() {
        (s, Some(VMError::IndexBeyondBoundsError(index, s.mem[address].len() as u64)))
    } else {
        (
            adv(
                MState {
                    mem: s.mem.insert(
                        address,
                        write_block(s.mem[address], index, spec_u64_to_le_bytes(value)),
                    ),
                    ..s
                },
            ),
            None,
        )
    }
}

/// Reading the byte at offset `offset` of the block at `address` into
/// register `r`.
pub open spec fn spec_load_byte(s: MState, r: Register, address: u64, offset: u64) -> (
    MState,
    Option<VMError>,
) {
    if !s.mem.contains_key(address) {
        (s, Some(VMError::FailedGetNoAddressError(address)))
    } else if offset >= s.mem[address].len() {
        (s, Some(VMError::IndexBeyondBoundsError(offset, s.mem[address].len() as u64)))
    } else {
        (adv(wr(s, r, s.mem[address][offset as int] as u64)), None)
    }
}

/// Reading the 8 little-endian bytes at offset `offset` of the block at
/// `address` into register `r`; the read may end exactly at the block's
/// end.
pub open spec fn spec_load_word(s: MState, r: Register, address: u64, offset: u64) -> (
    MState,
    Option<VMError>,
) {
    if !s.mem.contains_key(address) {
        (s, Some(VMError::FailedGetNoAddressError(address)))
    } else if offset + 8 > s.mem[address].len() {
        (s, Some(VMError::IndexBeyondBoundsError(offset, s.mem[address].len() as u64)))
    } else {
        (adv(wr(s, r, le8_at(s.mem[address], offset))), None)
    }
}

/// Exchanging the blocks at two live addresses; when either address is
/// vacant the exchange fails and the heap is untouched.
pub open spec fn spec_swap(s: MState, x: u64, y: u64) -> (MState, Option<VMError>) {
    if !s.mem.contains_key(x) {
        (s, Some(VMError::FailedGetNoAddressError(x)))
    } else if !s.mem.contains_key(y) {
        (s, Some(VMError::FailedGetNoAddressError(y)))
    } else {
        (
            adv(MState { mem: s.mem.insert(x, s.mem[y]).insert(y, s.mem[x]), ..s }),
            None,
        )
    }
}

/// Writing an arithmetic outcome to register `r`, or surfacing its error.
pub open spec fn spec_arith(s: MState, r: Register, v: Result<i64, VMError>) -> (
    MState,
    Option<VMError>,
) {
    match v {
        Ok(v) => (adv(wr(s, r, v as u64)), None),
        Err(e) => (s, Some(e)),
    }
}

/// Writing an unsigned arithmetic outcome to register `r`, or surfacing
/// its error.
pub open spec fn spec_arith_u(s: MState, r: Register, v: Result<u64, VMError>) -> (
    MState,
    Option<VMError>,
) {
    match v {
        Ok(v) => (adv(wr(s, r, v)), None),
        Err(e) => (s, Some(e)),
    }
}

/// One cycle took the machine from `pre` to `post` with outcome `r`,
/// exactly as `step` describes.
pub open spec fn steps_to(
    pre: MState,
    instr: Instruction,
    post: MState,
    r: Result<(), VMError>,
) -> bool {
    let out = step(pre, instr);
    post == out.0 && (match out.1 {
        None => r == Ok::<(), VMError>(()),
        Some(e) => r == Err::<(), VMError>(e),
    })
}

/// The virtual machine: heap, stack, register bank, instruction list,
/// instruction pointer, halt flag and overflow behaviour.
pub struct VM {
    memory: Memory,
    stack: Stack,
    register_bank: Registers,
    instructions: Vec<Instruction>,
    ip: usize,
    halted: bool,
    behaviour: OverflowBehaviour,
}

impl View for VM {
    type V = MState;

    closed spec fn view(&self) -> MState {
        MState {
            mem: self.memory.mem(),
            freed: self.memory.freed_view(),
            stack: self.stack@,
            regs: self.register_bank@,
            instrs: self.instructions@,
            ip: self.ip as int,
            halted: self.halted,
            behaviour: self.behaviour,
        }
    }
}

/// What a host system-call handler may not touch: the instruction list,
/// the instruction pointer, the stack and the overflow behaviour. It may
/// read and write registers and heap and halt the machine.
pub open spec fn syscall_frame(pre: MState, post: MState) -> bool {
    &&& post.instrs == pre.instrs
    &&& post.ip == pre.ip
    &&& post.stack == pre.stack
    &&& post.behaviour == pre.behaviour
}

/// The host capability that gives system calls their meaning. The machine
/// hands the handler mutable access to itself; each handler method must
/// leave the instruction list, instruction pointer, stack and overflow
/// behaviour alone, which is all that the machine's own public interface
/// lets an embedder's handler do.
pub trait SyscallHandler: Sized {
    /// A call number outside the conventional set.
    fn execute_target_specific_call(&mut self, call: u64, machine: &mut VM) -> (r: Option<u64>)
        requires
            old(machine).wf(),
        ensures
            final(machine).wf(),
            syscall_frame(old(machine)@, final(machine)@),
    ;

    fn exit(&mut self, machine: &mut VM) -> (r: Option<u64>)
        requires
            old(machine).wf(),
        ensures
            final(machine).wf(),
            syscall_frame(old(machine)@, final(machine)@),
    ;

    fn write_byte_terminal(&mut self, machine: &mut VM) -> (r: Option<u64>)
        requires
            old(machine).wf(),
        ensures
            final(machine).wf(),
            syscall_frame(old(machine)@, final(machine)@),
    ;

    fn write_terminal(&mut self, machine: &mut VM) -> (r: Option<u64>)
        requires
            old(machine).wf(),
        ensures
            final(machine).wf(),
            syscall_frame(old(machine)@, final(machine)@),
    ;

    fn read_byte_terminal(&mut self, machine: &mut VM) -> (r: Option<u64>)
        requires
            old(machine).wf(),
        ensures
            final(machine).wf(),
            syscall_frame(old(machine)@, final(machine)@),
    ;

    fn read_terminal(&mut self, machine: &mut VM) -> (r: Option<u64>)
        requires
            old(machine).wf(),
        ensures
            final(machine).wf(),
            syscall_frame(old(machine)@, final(machine)@),
    ;

    fn open_file(&mut self, machine: &mut VM) -> (r: Option<u64>)
        requires
            old(machine).wf(),
        ensures
            final(machine).wf(),
            syscall_frame(old(machine)@, final(machine)@),
    ;

    fn close_file(&mut self, machine: &mut VM) -> (r: Option<u64>)
        requires
            old(machine).wf(),
        ensures
            final(machine).wf(),
            syscall_frame(old(machine)@, final(machine)@),
    ;

    fn read_file(&mut self, machine: &mut VM) -> (r: Option<u64>)
        requires
            old(machine).wf(),
        ensures
            final(machine).wf(),
            syscall_frame(old(machine)@, final(machine)@),
    ;

    fn write_file(&mut self, machine: &mut VM) -> (r: Option<u64>)
        requires
            old(machine).wf(),
        ensures
            final(machine).wf(),
            syscall_frame(old(machine)@, final(machine)@),
    ;

    fn delete_file(&mut self, machine: &mut VM) -> (r: Option<u64>)
        requires
            old(machine).wf(),
        ensures
            final(machine).wf(),
            syscall_frame(old(machine)@, final(machine)@),
    ;

    fn move_file(&mut self, machine: &mut VM) -> (r: Option<u64>)
        requires
            old(machine).wf(),
        ensures
            final(machine).wf(),
            syscall_frame(old(machine)@, final(machine)@),
    ;

    fn copy_file(&mut self, machine: &mut VM) -> (r: Option<u64>)
        requires
            old(machine).wf(),
        ensures
            final(machine).wf(),
            syscall_frame(old(machine)@, final(machine)@),
    ;

    fn execute_file(&mut self, machine: &mut VM) -> (r: Option<u64>)
        requires
            old(machine).wf(),
        ensures
            final(machine).wf(),
            syscall_frame(old(machine)@, final(machine)@),
    ;

    fn execute_vxl_file(&mut self, machine: &mut VM) -> (r: Option<u64>)
        requires
            old(machine).wf(),
        ensures
            final(machine).wf(),
            syscall_frame(old(machine)@, final(machine)@),
    ;

    fn time_of_day(&mut self, machine: &mut VM) -> (r: Option<u64>)
        requires
            old(machine).wf(),
        ensures
            final(machine).wf(),
            syscall_frame(old(machine)@, final(machine)@),
    ;
}

impl VM {
    /// The machine's structural invariant: a full register bank and a
    /// well-formed heap.
    pub closed spec fn wf(self) -> bool {
        &&& self.register_bank.wf()
        &&& self.memory.keys_ok()
        &&& mem_wf(self.memory@)
    }

    /// A machine over `instructions` with default stack, heap, registers
    /// and overflow behaviour, starting at instruction index 0.
    pub fn new(instructions: Vec<Instruction>) -> (r: VM)
        ensures
            r.wf(),
            r@.instrs == instructions@,
            r@.ip == 0,
            !r@.halted,
            r@.behaviour == OverflowBehaviour::Clamping,
            r@.mem == Map::<u64, Seq<u8>>::empty(),
            r@.freed == Seq::<u64>::empty(),
            r@.regs == Seq::new(16, |i: int| 0u64),
            r@.stack == Seq::new(crate::vm::stack::DEFAULT_STACK_SIZE as nat, |i: int| 0u8),
    {
        VM::new_fixed_start(instructions, 0)
    }

    /// A machine as `new` builds, except that execution starts at
    /// instruction index `ip`.
    pub fn new_fixed_start(instructions: Vec<Instruction>, ip: usize) -> (r: VM)
        ensures
            r.wf(),
            r@.instrs == instructions@,
            r@.ip == ip,
            !r@.halted,
            r@.behaviour == OverflowBehaviour::Clamping,
            r@.mem == Map::<u64, Seq<u8>>::empty(),
            r@.freed == Seq::<u64>::empty(),
            r@.regs == Seq::new(16, |i: int| 0u64),
            r@.stack == Seq::new(crate::vm::stack::DEFAULT_STACK_SIZE as nat, |i: int| 0u8),
    {
        VM {
            memory: Memory::default(),
            stack: Stack::default(),
            register_bank: Registers::default(),
            instructions,
            ip,
            halted: false,
            behaviour: OverflowBehaviour::default(),
        }
    }

    /// A machine with a chosen stack size, start index and overflow
    /// behaviour.
    pub fn new_with_options(
        stack_size: usize,
        instructions: Vec<Instruction>,
        ip: usize,
        behaviour: OverflowBehaviour,
    ) -> (r: VM)
        ensures
            r.wf(),
            r@.instrs == instructions@,
            r@.ip == ip,
            !r@.halted,
            r@.behaviour == behaviour,
            r@.mem == Map::<u64, Seq<u8>>::empty(),
            r@.freed == Seq::<u64>::empty(),
            r@.regs == Seq::new(16, |i: int| 0u64),
            r@.stack == Seq::new(stack_size as nat, |i: int| 0u8),
    {
        VM {
            memory: Memory::new(),
            stack: Stack::new(stack_size),
            register_bank: Registers::default(),
            instructions,
            ip,
            halted: false,
            behaviour,
        }
    }

    /// Halts the machine; a halted machine refuses to execute further.
    pub fn halt(&mut self)
        ensures
            final(self)@ == (MState { halted: true, ..old(self)@ }),
            final(self).wf() == old(self).wf(),
    {
        self.halted = true;
    }

    /// The register bank.
    pub fn registers(&self) -> (r: &Registers)
        ensures
            r@ == self@.regs,
    {
        &self.register_bank
    }

    /// The stack.
    pub fn stack(&self) -> (r: &Stack)
        ensures
            r@ == self@.stack,
    {
        &self.stack
    }

    /// The heap.
    pub fn memory(&self) -> (r: &Memory)
        ensures
            r.mem() == self@.mem,
            r.freed_view() == self@.freed,
            self.wf() ==> r.keys_ok(),
    {
        &self.memory
    }

    /// Writes `value` to the register at index `register`. This is the
    /// mutable register access a system-call handler uses.
    pub fn set_register(&mut self, register: u8, value: u64)
        requires
            old(self).wf(),
            register < 16,
        ensures
            final(self).wf(),
            final(self)@ == (MState {
                regs: old(self)@.regs.update(register as int, value),
                ..old(self)@
            }),
    {
        self.register_bank.set_value(register, value);
        proof {
            assert(self@ =~= (MState {
                regs: old(self)@.regs.update(register as int, value),
                ..old(self)@
            }));
        }
    }

    /// Replaces the block at a live heap address. This is the mutable heap
    /// access a system-call handler uses.
    pub fn assign_block(&mut self, address: u64, data: Vec<u8>) -> (r: bool)
        requires
            old(self).wf(),
        ensures
            final(self).wf(),
            r == old(self)@.mem.contains_key(address),
            r ==> final(self)@ == (MState {
                mem: old(self)@.mem.insert(address, data@),
                ..old(self)@
            }),
            !r ==> final(self)@ == old(self)@,
    {
        let r = self.memory.assign(address, data);
        proof {
            if r {
                assert(self@ =~= (MState {
                    mem: old(self)@.mem.insert(address, data@),
                    ..old(self)@
                }));
            } else {
                assert(self@ =~= old(self)@);
            }
        }
        r
    }

    /// Allocates a zero-filled block of `size` bytes at the next free
    /// address and returns that address. This is the heap allocation a
    /// system-call handler uses; it follows the same address policy as the
    /// allocation instructions.
    pub fn allocate_block(&mut self, size: u64) -> (r: u64)
        requires
            old(self).wf(),
        ensures
            final(self).wf(),
            r == alloc_addr(old(self)@),
            !old(self)@.mem.contains_key(r),
            final(self)@ == (MState {
                mem: old(self)@.mem.insert(r, zeros(size as nat)),
                freed: alloc_freed(old(self)@),
                ..old(self)@
            }),
    {
        proof {
            crate::vm::memory::lemma_map_of_dom_len(self.memory@.blocks);
        }
        match self.memory.allocate(size) {
            Some(address) => {
                proof {
                    assert(self@ =~= (MState {
                        mem: old(self)@.mem.insert(address, zeros(size as nat)),
                        freed: alloc_freed(old(self)@),
                        ..old(self)@
                    }));
                }
                address
            },
            None => {
                proof {
                    assert(false);
                }
                0
            },
        }
    }

    /// Frees the block at `address`, recording the address for reuse;
    /// fails without effect when the address is vacant. This is the heap
    /// release a system-call handler uses.
    pub fn free_block(&mut self, address: u64) -> (r: bool)
        requires
            old(self).wf(),
        ensures
            final(self).wf(),
            r == old(self)@.mem.contains_key(address),
            r ==> final(self)@ == (MState {
                mem: old(self)@.mem.remove(address),
                freed: insert_desc(old(self)@.freed, address),
                ..old(self)@
            }),
            !r ==> final(self)@ == old(self)@,
    {
        let r = self.memory.free(&address);
        proof {
            if r {
                assert(self@ =~= (MState {
                    mem: old(self)@.mem.remove(address),
                    freed: insert_desc(old(self)@.freed, address),
                    ..old(self)@
                }));
            } else {
                assert(self@ =~= old(self)@);
            }
        }
        r
    }
}

impl VM {
    /// Advances the instruction pointer past the current instruction.
    fn advance(&mut self)
        requires
            old(self).wf(),
            old(self)@.ip < old(self)@.instrs.len(),
        ensures
            final(self).wf(),
            final(self)@ == adv(old(self)@),
    {
        // reading the length establishes that the incremented pointer fits
        let n = self.instructions.len();
        self.ip = self.ip + 1;
        proof {
            assert(self.ip <= n);
            assert(self@ =~= adv(old(self)@));
        }
    }

    /// Writes `v` to register `r` and advances the instruction pointer.
    fn set_and_adv(&mut self, r: Register, v: u64)
        requires
            old(self).wf(),
            old(self)@.ip < old(self)@.instrs.len(),
        ensures
            final(self).wf(),
            final(self)@ == adv(wr(old(self)@, r, v)),
    {
        let idx = r.index();
        assert(idx < 16);
        self.register_bank.set_value(idx, v);
        // reading the length establishes that the incremented pointer fits
        let n = self.instructions.len();
        self.ip = self.ip + 1;
        proof {
            assert(self@ =~= adv(wr(old(self)@, r, v)));
        }
    }

    /// The value of register `r`.
    fn reg(&self, r: Register) -> (v: u64)
        requires
            self.wf(),
        ensures
            v == rg(self@, r),
    {
        let idx = r.index();
        assert(idx < 16);
        self.register_bank.get_value(idx)
    }

    /// Pushes the 8 little-endian bytes of `value` at the frame pointer
    /// and advances the frame pointer; fails when the write runs past the
    /// stack's end.
    fn push_stack(&mut self, value: u64) -> (r: Result<(), VMError>)
        requires
            old(self).wf(),
        ensures
            final(self).wf(),
            final(self)@ == spec_push(old(self)@, value).0,
            outcome_matches(spec_push(old(self)@, value).1, r),
    {
        let cap = self.stack.items().len();
        let rfp = self.register_bank.get_value(1);
        if !self.stack.insert_u64(rfp, value) {
            proof {
                assert(self@ =~= spec_push(old(self)@, value).0);
            }
            return Err(VMError::AccessBeyondStackBounds);
        }
        proof {
            vstd::bytes::lemma_auto_spec_u64_to_from_le_bytes();
            assert(rfp + 8 <= cap);
        }
        self.register_bank.set_value(1, rfp + 8);
        proof {
            assert(self@ =~= spec_push(old(self)@, value).0);
        }
        Ok(())
    }

    /// Pops the 8 bytes below the frame pointer, retreating it; fails when
    /// fewer than 8 bytes lie below it.
    fn pop_stack(&mut self) -> (r: Result<u64, VMError>)
        requires
            old(self).wf(),
        ensures
            final(self).wf(),
            final(self)@ == spec_pop(old(self)@).0,
            match spec_pop(old(self)@).1 {
                None => r == Ok::<u64, VMError>(spec_pop(old(self)@).2),
                Some(e) => r == Err::<u64, VMError>(e),
            },
    {
        let rfp = self.register_bank.get_value(1);
        match self.stack.get_top_u64(rfp) {
            Some(v) => {
                self.register_bank.sub_value(1, 8);
                proof {
                    assert(rfp >= 8);
                    assert(self@ =~= spec_pop(old(self)@).0);
                }
                Ok(v)
            },
            None => {
                proof {
                    assert(self@ =~= spec_pop(old(self)@).0);
                }
                Err(VMError::AccessBeyondStackBounds)
            },
        }
    }

    /// Signed addition under this machine's overflow behaviour.
    fn compute_i64_add(&self, a: i64, b: i64) -> (r: Result<i64, VMError>)
        ensures
            r == spec_add_i64(self@.behaviour, a, b),
    {
        match self.behaviour {
            OverflowBehaviour::Wrapping => Ok(a.wrapping_add(b)),
            OverflowBehaviour::Clamping => match a.checked_add(b) {
                Some(v) => Ok(v),
                None => if a >= 0 {
                    Ok(i64::MAX)
                } else {
                    Ok(i64::MIN)
                },
            },
            OverflowBehaviour::Reporting => match a.checked_add(b) {
                Some(v) => Ok(v),
                None => Err(VMError::IntegerOverflowError),
            },
        }
    }

    /// Signed subtraction under this machine's overflow behaviour.
    fn compute_i64_sub(&self, a: i64, b: i64) -> (r: Result<i64, VMError>)
        ensures
            r == spec_sub_i64(self@.behaviour, a, b),
    {
        match self.behaviour {
            OverflowBehaviour::Wrapping => Ok(a.wrapping_sub(b)),
            OverflowBehaviour::Clamping => match a.checked_sub(b) {
                Some(v) => Ok(v),
                None => if a >= 0 {
                    Ok(i64::MAX)
                } else {
                    Ok(i64::MIN)
                },
            },
            OverflowBehaviour::Reporting => match a.checked_sub(b) {
                Some(v) => Ok(v),
                None => Err(VMError::IntegerOverflowError),
            },
        }
    }

    /// Signed multiplication under this machine's overflow behaviour.
    fn compute_i64_mul(&self, a: i64, b: i64) -> (r: Result<i64, VMError>)
        ensures
            r == spec_mul_i64(self@.behaviour, a, b),
    {
        match self.behaviour {
            OverflowBehaviour::Wrapping => Ok(a.wrapping_mul(b)),
            OverflowBehaviour::Clamping => match a.checked_mul(b) {
                Some(v) => Ok(v),
                None => {
                    proof {
                        assert((a > 0 && b > 0 ==> a * b > 0) && (a < 0 && b < 0 ==> a * b > 0)
                            && (a > 0 && b < 0 ==> a * b < 0) && (a < 0 && b > 0 ==> a * b < 0)
                            && (a == 0 ==> a * b == 0) && (b == 0 ==> a * b == 0))
                            by (nonlinear_arith);
                    }
                    if (a > 0) == (b > 0) {
                        Ok(i64::MAX)
                    } else {
                        Ok(i64::MIN)
                    }
                },
            },
            OverflowBehaviour::Reporting => match a.checked_mul(b) {
                Some(v) => Ok(v),
                None => Err(VMError::IntegerOverflowError),
            },
        }
    }

    /// Signed division under this machine's overflow behaviour.
    fn compute_i64_div(&self, a: i64, b: i64) -> (r: Result<i64, VMError>)
        ensures
            r == spec_div_i64(self@.behaviour, a, b),
    {
        if b == 0 {
            return Err(VMError::IntegerOverflowError);
        }
        match a.checked_div(b) {
            Some(v) => Ok(v),
            None => match self.behaviour {
                OverflowBehaviour::Wrapping => Ok(i64::MIN),
                _ => Err(VMError::IntegerOverflowError),
            },
        }
    }

    /// Signed remainder under this machine's overflow behaviour.
    fn compute_i64_mod(&self, a: i64, b: i64) -> (r: Result<i64, VMError>)
        ensures
            r == spec_mod_i64(self@.behaviour, a, b),
    {
        if b == 0 {
            return Err(VMError::AttemptedModuloZeroOperation);
        }
        match a.checked_rem(b) {
            Some(v) => Ok(v),
            None => match self.behaviour {
                OverflowBehaviour::Wrapping => Ok(0i64),
                _ => Err(VMError::IntegerOverflowError),
            },
        }
    }

    /// Unsigned addition under this machine's overflow behaviour.
    fn compute_u64_add(&self, a: u64, b: u64) -> (r: Result<u64, VMError>)
        ensures
            r == spec_add_u64(self@.behaviour, a, b),
    {
        match self.behaviour {
            OverflowBehaviour::Wrapping => Ok(a.wrapping_add(b)),
            OverflowBehaviour::Clamping => Ok(a.saturating_add(b)),
            OverflowBehaviour::Reporting => match a.checked_add(b) {
                Some(v) => Ok(v),
                None => Err(VMError::IntegerOverflowError),
            },
        }
    }

    /// Unsigned subtraction under this machine's overflow behaviour.
    fn compute_u64_sub(&self, a: u64, b: u64) -> (r: Result<u64, VMError>)
        ensures
            r == spec_sub_u64(self@.behaviour, a, b),
    {
        match self.behaviour {
            OverflowBehaviour::Wrapping => Ok(a.wrapping_sub(b)),
            OverflowBehaviour::Clamping => Ok(a.saturating_sub(b)),
            OverflowBehaviour::Reporting => match a.checked_sub(b) {
                Some(v) => Ok(v),
                None => Err(VMError::IntegerOverflowError),
            },
        }
    }

    /// Unsigned multiplication under this machine's overflow behaviour.
    fn compute_u64_mul(&self, a: u64, b: u64) -> (r: Result<u64, VMError>)
        ensures
            r == spec_mul_u64(self@.behaviour, a, b),
    {
        match self.behaviour {
            OverflowBehaviour::Wrapping => Ok(a.wrapping_mul(b)),
            OverflowBehaviour::Clamping => match a.checked_mul(b) {
                Some(v) => Ok(v),
                None => Ok(u64::MAX),
            },
            OverflowBehaviour::Reporting => match a.checked_mul(b) {
                Some(v) => Ok(v),
                None => Err(VMError::IntegerOverflowError),
            },
        }
    }

    /// Unsigned division under this machine's overflow behaviour.
    fn compute_u64_div(&self, a: u64, b: u64) -> (r: Result<u64, VMError>)
        ensures
            r == spec_div_u64(self@.behaviour, a, b),
    {
        if b == 0 {
            return Err(VMError::IntegerOverflowError);
        }
        Ok(a / b)
    }

    /// Unsigned remainder under this machine's overflow behaviour.
    fn compute_u64_mod(&self, a: u64, b: u64) -> (r: Result<u64, VMError>)
        ensures
            r == spec_mod_u64(self@.behaviour, a, b),
    {
        if b == 0 {
            return Err(VMError::AttemptedModuloZeroOperation);
        }
        Ok(a % b)
    }
}

/// Whether a cycle's result reports the given outcome.
pub open spec fn outcome_matches(e: Option<VMError>, r: Result<(), VMError>) -> bool {
    match e {
        None => r == Ok::<(), VMError>(()),
        Some(e2) => r == Err::<(), VMError>(e2),
    }
}

impl VM {
    /// Writes the low byte of `value` at offset `index` of the block at
    /// `address`.
    fn store_byte_op(&mut self, address: u64, index: u64, value: u64) -> (r: Result<(), VMError>)
        requires
            old(self).wf(),
            old(self)@.ip < old(self)@.instrs.len(),
        ensures
            final(self).wf(),
            final(self)@ == spec_store_byte(old(self)@, address, index, value).0,
            outcome_matches(spec_store_byte(old(self)@, address, index, value).1, r),
    {
        match self.memory.set(&address, &index, (value & 0xFF) as u8) {
            Ok(_) => {
                self.advance();
                proof {
                    assert(self@ =~= spec_store_byte(old(self)@, address, index, value).0);
                }
                Ok(())
            },
            Err(e) => {
                proof {
                    assert(self@ =~= spec_store_byte(old(self)@, address, index, value).0);
                }
                Err(e)
            },
        }
    }

    /// Writes the 8 little-endian bytes of `value` at offset `index` of the
    /// block at `address`; a write whose end would touch or pass the
    /// block's last byte is rejected.
    fn store_word_op(&mut self, address: u64, index: u64, value: u64) -> (r: Result<(), VMError>)
        requires
            old(self).wf(),
            old(self)@.ip < old(self)@.instrs.len(),
        ensures
            final(self).wf(),
            final(self)@ == spec_store_word(old(self)@, address, index, value).0,
            outcome_matches(spec_store_word(old(self)@, address, index, value).1, r),
    {
        let blen: u64 = match self.memory.retrieve(&address) {
            Some(b) => b.len() as u64,
            None => {
                return Err(VMError::FailedSetNoAddressError(address));
            },
        };
        if index > u64::MAX - 8 || index + 8 >= blen {
            return Err(VMError::IndexBeyondBoundsError(index, blen));
        }
        let bytes = vstd::bytes::u64_to_le_bytes(value);
        let ghost orig = old(self)@.mem[address];
        let mut block = match self.memory.take(&address) {
            Some(b) => b,
            None => {
                proof {
                    assert(false);
                }
                return Err(VMError::FailedSetNoAddressError(address));
            },
        };
        proof {
            vstd::bytes::lemma_auto_spec_u64_to_from_le_bytes();
        }
        let mut k: usize = 0;
        #[verifier::loop_isolation(false)]
        while k < 8
            invariant
                k <= 8,
                bytes@ == spec_u64_to_le_bytes(value),
                bytes@.len() == 8,
                block@.len() == orig.len(),
                index + 8 < orig.len(),
                block@ =~= Seq::new(
                    orig.len(),
                    |j: int|
                        if index <= j < index + k {
                            bytes@[j - index]
                        } else {
                            orig[j]
                        },
                ),
            decreases 8 - k,
        {
            block.set((index + k as u64) as usize, bytes[k]);
            k = k + 1;
        }
        proof {
            assert(block@ =~= write_block(orig, index, spec_u64_to_le_bytes(value)));
        }
        let ghost mid = self.memory@;
        let placed = self.memory.assign_empty(address, block);
        proof {
            assert(placed);
            assert(self.memory@.blocks.len() == old(self).memory@.blocks.len());
            crate::vm::memory::lemma_map_of_contains(old(self).memory@.blocks);
            assert(crate::vm::memory::contains_key(old(self).memory@.blocks, address));
            assert forall|a: u64|
                crate::vm::memory::contains_key(self.memory@.blocks, a)
                    == crate::vm::memory::contains_key(old(self).memory@.blocks, a) by {
                assert(crate::vm::memory::contains_key(self.memory@.blocks, a) <==> (
                crate::vm::memory::contains_key(mid.blocks, a) || a == address));
                assert(crate::vm::memory::contains_key(mid.blocks, a) <==> (
                crate::vm::memory::contains_key(old(self).memory@.blocks, a) && a != address));
            }
            crate::vm::memory::lemma_wf_same_footprint(old(self).memory@, self.memory@);
        }
        self.advance();
        proof {
            assert(self@.mem =~= old(self)@.mem.insert(
                address,
                write_block(orig, index, spec_u64_to_le_bytes(value)),
            ));
            assert(self@ =~= spec_store_word(old(self)@, address, index, value).0);
        }
        Ok(())
    }

    /// Reads the byte at `offset` of the block at `address` into `dest`.
    fn load_byte_op(&mut self, dest: Register, address: u64, offset: u64) -> (r: Result<
        (),
        VMError,
    >)
        requires
            old(self).wf(),
            old(self)@.ip < old(self)@.instrs.len(),
        ensures
            final(self).wf(),
            final(self)@ == spec_load_byte(old(self)@, dest, address, offset).0,
            outcome_matches(spec_load_byte(old(self)@, dest, address, offset).1, r),
    {
        let v: u64 = match self.memory.retrieve(&address) {
            None => {
                return Err(VMError::FailedGetNoAddressError(address));
            },
            Some(block) => {
                if offset >= block.len() as u64 {
                    return Err(VMError::IndexBeyondBoundsError(offset, block.len() as u64));
                }
                block[offset as usize] as u64
            },
        };
        self.set_and_adv(dest, v);
        Ok(())
    }

    /// Reads the 8 little-endian bytes at `offset` of the block at
    /// `address` into `dest`; the read may end exactly at the block's end.
    fn load_word_op(&mut self, dest: Register, address: u64, offset: u64) -> (r: Result<
        (),
        VMError,
    >)
        requires
            old(self).wf(),
            old(self)@.ip < old(self)@.instrs.len(),
        ensures
            final(self).wf(),
            final(self)@ == spec_load_word(old(self)@, dest, address, offset).0,
            outcome_matches(spec_load_word(old(self)@, dest, address, offset).1, r),
    {
        let v: u64 = match self.memory.retrieve(&address) {
            None => {
                return Err(VMError::FailedGetNoAddressError(address));
            },
            Some(block) => {
                if offset > u64::MAX - 8 || offset + 8 > block.len() as u64 {
                    return Err(VMError::IndexBeyondBoundsError(offset, block.len() as u64));
                }
                let sl = vstd::slice::slice_subrange(
                    block.as_slice(),
                    offset as usize,
                    offset as usize + 8,
                );
                proof {
                    assert(sl@ =~= old(self)@.mem[address].subrange(offset as int, offset + 8));
                }
                vstd::bytes::u64_from_le_bytes(sl)
            },
        };
        self.set_and_adv(dest, v);
        Ok(())
    }

    /// Reads the final 64-bit word of the block at `address` into `dest`,
    /// or its final byte when the block is shorter than 8 bytes.
    fn last_op(&mut self, dest: Register, address: u64) -> (r: Result<(), VMError>)
        requires
            old(self).wf(),
            old(self)@.ip < old(self)@.instrs.len(),
        ensures
            final(self).wf(),
            !old(self)@.mem.contains_key(address) ==> r == Err::<(), VMError>(
                VMError::FailedGetNoAddressError(address),
            ) && final(self)@ == old(self)@,
            old(self)@.mem.contains_key(address) && old(self)@.mem[address].len() == 0 ==> r
                == Err::<(), VMError>(VMError::IndexBeyondBoundsError(1, 0)) && final(self)@
                == old(self)@,
            old(self)@.mem.contains_key(address) && 0 < old(self)@.mem[address].len() < 8 ==> r
                == Ok::<(), VMError>(()) && final(self)@ == adv(
                wr(old(self)@, dest, old(self)@.mem[address].last() as u64),
            ),
            old(self)@.mem.contains_key(address) && old(self)@.mem[address].len() >= 8 ==> r
                == Ok::<(), VMError>(()) && final(self)@ == adv(
                wr(
                    old(self)@,
                    dest,
                    spec_u64_from_le_bytes(
                        old(self)@.mem[address].subrange(
                            old(self)@.mem[address].len() - 8,
                            old(self)@.mem[address].len() as int,
                        ),
                    ),
                ),
            ),
    {
        let v: u64 = match self.memory.retrieve(&address) {
            None => {
                return Err(VMError::FailedGetNoAddressError(address));
            },
            Some(block) => {
                let n = block.len();
                if n == 0 {
                    return Err(VMError::IndexBeyondBoundsError(1, 0));
                }
                if n < 8 {
                    block[n - 1] as u64
                } else {
                    let sl = vstd::slice::slice_subrange(block.as_slice(), n - 8, n);
                    proof {
                        assert(sl@ =~= old(self)@.mem[address].subrange(
                            old(self)@.mem[address].len() - 8,
                            old(self)@.mem[address].len() as int,
                        ));
                    }
                    vstd::bytes::u64_from_le_bytes(sl)
                }
            },
        };
        self.set_and_adv(dest, v);
        Ok(())
    }

    /// Allocates a zero-filled block of `size` bytes and writes its
    /// address to `dest`.
    fn malloc_op(&mut self, dest: Register, size: u64) -> (r: Result<(), VMError>)
        requires
            old(self).wf(),
            old(self)@.ip < old(self)@.instrs.len(),
        ensures
            final(self).wf(),
            final(self)@ == adv(spec_alloc(old(self)@, zeros(size as nat), dest)),
            r == Ok::<(), VMError>(()),
    {
        proof {
            crate::vm::memory::lemma_map_of_dom_len(self.memory@.blocks);
        }
        match self.memory.allocate(size) {
            Some(address) => {
                self.set_and_adv(dest, address);
                proof {
                    assert(self@ =~= adv(spec_alloc(old(self)@, zeros(size as nat), dest)));
                }
                Ok(())
            },
            None => {
                proof {
                    assert(false);
                }
                Err(VMError::FailedMalloc)
            },
        }
    }

    /// Allocates a copy of the block at `src` and writes the new address
    /// to `dest`.
    fn clone_op(&mut self, dest: Register, src: u64) -> (r: Result<(), VMError>)
        requires
            old(self).wf(),
            old(self)@.ip < old(self)@.instrs.len(),
        ensures
            final(self).wf(),
            !old(self)@.mem.contains_key(src) ==> r == Err::<(), VMError>(
                VMError::FailedGetNoAddressError(src),
            ) && final(self)@ == old(self)@,
            old(self)@.mem.contains_key(src) ==> r == Ok::<(), VMError>(()) && final(self)@
                == adv(spec_alloc(old(self)@, old(self)@.mem[src], dest)),
    {
        let copy: Vec<u8> = match self.memory.retrieve(&src) {
            None => {
                return Err(VMError::FailedGetNoAddressError(src));
            },
            Some(block) => vstd::slice::slice_to_vec(block.as_slice()),
        };
        proof {
            crate::vm::memory::lemma_map_of_dom_len(self.memory@.blocks);
        }
        match self.memory.allocate_with(copy) {
            Some(address) => {
                self.set_and_adv(dest, address);
                proof {
                    assert(self@ =~= adv(spec_alloc(old(self)@, old(self)@.mem[src], dest)));
                }
                Ok(())
            },
            None => {
                proof {
                    assert(false);
                }
                Err(VMError::FailedMalloc)
            },
        }
    }

    /// Frees the block at `address` and records the address for reuse.
    fn free_op(&mut self, address: u64) -> (r: Result<(), VMError>)
        requires
            old(self).wf(),
            old(self)@.ip < old(self)@.instrs.len(),
        ensures
            final(self).wf(),
            !old(self)@.mem.contains_key(address) ==> r == Err::<(), VMError>(
                VMError::FailedFreeNoAddressError(address),
            ) && final(self)@ == old(self)@,
            old(self)@.mem.contains_key(address) ==> r == Ok::<(), VMError>(()) && final(self)@
                == adv(
                MState {
                    mem: old(self)@.mem.remove(address),
                    freed: insert_desc(old(self)@.freed, address),
                    ..old(self)@
                },
            ),
    {
        if !self.memory.free(&address) {
            return Err(VMError::FailedFreeNoAddressError(address));
        }
        self.advance();
        proof {
            assert(self@ =~= adv(
                MState {
                    mem: old(self)@.mem.remove(address),
                    freed: insert_desc(old(self)@.freed, address),
                    ..old(self)@
                },
            ));
        }
        Ok(())
    }

    /// Exchanges the blocks at two live heap addresses; when either is
    /// vacant the exchange fails and the heap is untouched.
    fn swap_op(&mut self, x: u64, y: u64) -> (r: Result<(), VMError>)
        requires
            old(self).wf(),
            old(self)@.ip < old(self)@.instrs.len(),
        ensures
            final(self).wf(),
            final(self)@ == spec_swap(old(self)@, x, y).0,
            outcome_matches(spec_swap(old(self)@, x, y).1, r),
    {
        if self.memory.retrieve(&x).is_none() {
            return Err(VMError::FailedGetNoAddressError(x));
        }
        if self.memory.retrieve(&y).is_none() {
            return Err(VMError::FailedGetNoAddressError(y));
        }
        if x == y {
            self.advance();
            proof {
                assert(old(self)@.mem.insert(x, old(self)@.mem[y]).insert(y, old(self)@.mem[x])
                    =~= old(self)@.mem);
                assert(self@ =~= spec_swap(old(self)@, x, y).0);
            }
            return Ok(());
        }
        let bx = match self.memory.take(&x) {
            Some(b) => b,
            None => {
                proof {
                    assert(false);
                }
                return Err(VMError::FailedGetNoAddressError(x));
            },
        };
        let by = match self.memory.take(&y) {
            Some(b) => b,
            None => {
                proof {
                    assert(false);
                }
                return Err(VMError::FailedGetNoAddressError(y));
            },
        };
        let ghost m1 = self.memory@;
        let ok_x = self.memory.assign_empty(x, by);
        proof {
            assert(ok_x);
        }
        let ghost m2 = self.memory@;
        let ok_y = self.memory.assign_empty(y, bx);
        proof {
            assert(ok_y);
            assert(self.memory@.blocks.len() == old(self).memory@.blocks.len());
            crate::vm::memory::lemma_map_of_contains(old(self).memory@.blocks);
            assert(crate::vm::memory::contains_key(old(self).memory@.blocks, x));
            assert(crate::vm::memory::contains_key(old(self).memory@.blocks, y));
            assert forall|a: u64|
                crate::vm::memory::contains_key(self.memory@.blocks, a)
                    == crate::vm::memory::contains_key(old(self).memory@.blocks, a) by {
                assert(crate::vm::memory::contains_key(self.memory@.blocks, a) <==> (
                crate::vm::memory::contains_key(m2.blocks, a) || a == y));
                assert(crate::vm::memory::contains_key(m2.blocks, a) <==> (
                crate::vm::memory::contains_key(m1.blocks, a) || a == x));
            }
            crate::vm::memory::lemma_wf_same_footprint(old(self).memory@, self.memory@);
        }
        self.advance();
        proof {
            assert(self@.mem =~= old(self)@.mem.insert(x, old(self)@.mem[y]).insert(
                y,
                old(self)@.mem[x],
            ));
            assert(self@ =~= spec_swap(old(self)@, x, y).0);
        }
        Ok(())
    }

    /// Copies `n` bytes from offset `soff` of the block at `src` to offset
    /// `doff` of the block at `dest`, one byte at a time; a failing read
    /// or write stops the copy, keeping the bytes already written.
    fn copy_op(&mut self, dest: u64, doff: u64, src: u64, soff: u64, n: u64) -> (r: Result<
        (),
        VMError,
    >)
        requires
            old(self).wf(),
            old(self)@.ip < old(self)@.instrs.len(),
        ensures
            final(self).wf(),
            ({
                let c = spec_copy(old(self)@.mem, dest, doff, src, soff, n, 0);
                &&& outcome_matches(c.1, r)
                &&& (c.1 is None ==> final(self)@ == adv(
                    MState { mem: c.0, ..old(self)@ },
                ))
                &&& (c.1 is Some ==> final(self)@ == (MState { mem: c.0, ..old(self)@ }))
            }),
    {
        let ghost c = spec_copy(old(self)@.mem, dest, doff, src, soff, n, 0);
        let mut i: u64 = 0;
        #[verifier::loop_isolation(false)]
        while i < n
            invariant
                i <= n,
                self.wf(),
                i > 0 ==> soff + i <= usize::MAX && doff + i <= usize::MAX,
                self@ == (MState { mem: self@.mem, ..old(self)@ }),
                spec_copy(self@.mem, dest, doff, src, soff, n, i) == c,
            decreases n - i,
        {
            let so = soff + i;
            let b = match self.memory.get(&src, &so) {
                Ok(b) => b,
                Err(e) => {
                    return Err(e);
                },
            };
            let doo = doff + i;
            match self.memory.set(&dest, &doo, b) {
                Ok(_) => {},
                Err(e) => {
                    proof {
                        assert(self@ =~= (MState { mem: self@.mem, ..old(self)@ }));
                    }
                    return Err(e);
                },
            }
            proof {
                assert(self@ =~= (MState { mem: self@.mem, ..old(self)@ }));
            }
            i = i + 1;
        }
        self.advance();
        proof {
            assert(self@ =~= adv(MState { mem: c.0, ..old(self)@ }));
        }
        Ok(())
    }
}

impl VM {
    /// Dispatches a system call to the host handler: the immediate selects
    /// the handler method; its return value, if any, is written to the
    /// output register, else the call number is unknown.
    fn execute_syscall<H: SyscallHandler>(&mut self, handler: &mut H, i: Immediate) -> (r: Result<
        (),
        VMError,
    >)
        requires
            old(self).wf(),
            old(self)@.ip < old(self)@.instrs.len(),
        ensures
            final(self).wf(),
            final(self)@.instrs == old(self)@.instrs,
            final(self)@.behaviour == old(self)@.behaviour,
            final(self)@.stack == old(self)@.stack,
            r is Ok ==> final(self)@.ip == old(self)@.ip + 1 && syscall_cycle(
                old(self)@,
                final(self)@,
            ),
            r is Err ==> r == Err::<(), VMError>(VMError::UnknownSystemCall(i.bits)) && final(self)@.ip == old(self)@.ip,
    {
        let call = i.as_u64();
        let output = if call == 0 {
            handler.exit(self)
        } else if call == 1 {
            handler.write_byte_terminal(self)
        } else if call == 2 {
            handler.write_terminal(self)
        } else if call == 3 {
            handler.read_byte_terminal(self)
        } else if call == 4 {
            handler.read_terminal(self)
        } else if call == 5 {
            handler.open_file(self)
        } else if call == 6 {
            handler.close_file(self)
        } else if call == 7 {
            handler.read_file(self)
        } else if call == 8 {
            handler.write_file(self)
        } else if call == 9 {
            handler.delete_file(self)
        } else if call == 10 {
            handler.move_file(self)
        } else if call == 11 {
            handler.copy_file(self)
        } else if call == 12 {
            handler.execute_file(self)
        } else if call == 13 {
            handler.execute_vxl_file(self)
        } else if call == 14 {
            handler.time_of_day(self)
        } else {
            handler.execute_target_specific_call(call, self)
        };
        let ghost mid = self@;
        match output {
            Some(v) => {
                self.register_bank.set_value(2, v);
                // the handler leaves the instruction list and pointer alone,
                // so the incremented pointer still fits
                let n = self.instructions.len();
                self.ip = self.ip + 1;
                proof {
                    assert(syscall_frame(old(self)@, mid));
                    assert(self@ =~= (MState {
                        regs: mid.regs.update(2, v),
                        ip: mid.ip + 1,
                        ..mid
                    }));
                    assert(syscall_cycle(old(self)@, self@));
                }
                Ok(())
            },
            None => Err(VMError::UnknownSystemCall(call)),
        }
    }

    /// Executes one instruction of its family; a full cycle of `step`.
    #[verifier::spinoff_prover]
    #[verifier::rlimit(100)]
    fn execute_load_op<H: SyscallHandler>(&mut self, instr: Instruction, handler: &mut H) -> (r: Result<
        (),
        VMError,
    >)
        requires
            old(self).wf(),
            old(self)@.ip < old(self)@.instrs.len(),
            is_load_op(instr),
        ensures
            final(self).wf(),
            steps_to(old(self)@, instr, final(self)@, r),
    {
        match instr {
            Instruction::Nop => {
                self.advance();
                Ok(())
            },


            Instruction::Ldb(i, r) => {
                self.set_and_adv(r, i.as_u64() & 0xFF);
                Ok(())
            },

            Instruction::Ldi(i, r) => {
                self.set_and_adv(r, i.as_u64());
                Ok(())
            },

            Instruction::Ldf(i, r) => {
                self.set_and_adv(r, i.as_u64());
                Ok(())
            },

            Instruction::Mov(r, r1) => {
                let v = self.reg(r1);
                self.set_and_adv(r, v);
                Ok(())
            },

            Instruction::Halt => {
                self.halted = true;
                self.advance();
                proof {
                    assert(self@ =~= adv(MState { halted: true, ..old(self)@ }));
                }
                Ok(())
            },

            Instruction::Swpr(r, r1) => {
                let temp = self.reg(r);
                let v1 = self.reg(r1);
                self.register_bank.set_value(r.index(), v1);
                self.register_bank.set_value(r1.index(), temp);
                self.advance();
                proof {
                    assert(self@ =~= adv(
                        wr(wr(old(self)@, r, rg(old(self)@, r1)), r1, rg(old(self)@, r)),
                    ));
                }
                Ok(())
            },
            _ => {
                proof {
                    assert(false);
                }
                Ok(())
            },
        }
    }

    /// Executes one instruction of its family; a full cycle of `step`.
    #[verifier::spinoff_prover]
    #[verifier::rlimit(100)]
    fn execute_bit_op<H: SyscallHandler>(&mut self, instr: Instruction, handler: &mut H) -> (r: Result<
        (),
        VMError,
    >)
        requires
            old(self).wf(),
            old(self)@.ip < old(self)@.instrs.len(),
            is_bit_op(instr),
        ensures
            final(self).wf(),
            steps_to(old(self)@, instr, final(self)@, r),
    {
        match instr {
            Instruction::Not(r) => {
                let v = self.reg(r);
                self.set_and_adv(r, !v);
                Ok(())
            },

            Instruction::And(r, r1, r2) => {
                let a = self.reg(r1);
                let b = self.reg(r2);
                self.set_and_adv(r, a & b);
                Ok(())
            },

            Instruction::Or(r, r1, r2) => {
                let a = self.reg(r1);
                let b = self.reg(r2);
                self.set_and_adv(r, a | b);
                Ok(())
            },

            Instruction::Xor(r, r1, r2) => {
                let a = self.reg(r1);
                let b = self.reg(r2);
                self.set_and_adv(r, a ^ b);
                Ok(())
            },

            Instruction::Sll(r, r1) => {
                let sh = self.reg(r1);
                let v = self.reg(r);
                self.set_and_adv(r, shift_left_64(v, sh));
                Ok(())
            },

            Instruction::Slli(i, r) => {
                let v = self.reg(r);
                self.set_and_adv(r, shift_left_64(v, i.as_u64()));
                Ok(())
            },

            Instruction::Srl(r, r1) => {
                let sh = self.reg(r1);
                let v = self.reg(r);
                self.set_and_adv(r, shift_right_64(v, sh));
                Ok(())
            },

            Instruction::Srli(i, r) => {
                let v = self.reg(r);
                self.set_and_adv(r, shift_right_64(v, i.as_u64()));
                Ok(())
            },
            _ => {
                proof {
                    assert(false);
                }
                Ok(())
            },
        }
    }

    /// Executes one instruction of its family; a full cycle of `step`.
    #[verifier::spinoff_prover]
    #[verifier::rlimit(100)]
    fn execute_rot_op<H: SyscallHandler>(&mut self, instr: Instruction, handler: &mut H) -> (r: Result<
        (),
        VMError,
    >)
        requires
            old(self).wf(),
            old(self)@.ip < old(self)@.instrs.len(),
            is_rot_op(instr),
        ensures
            final(self).wf(),
            steps_to(old(self)@, instr, final(self)@, r),
    {
        match instr {
            Instruction::Rotl(r, r1) => {
                let raw = self.reg(r1);
                let v = self.reg(r);
                self.set_and_adv(r, rotate_left_64(v, clamp_rotation(raw)));
                Ok(())
            },

            Instruction::Rotli(i, r) => {
                let v = self.reg(r);
                self.set_and_adv(r, rotate_left_64(v, clamp_rotation(i.as_u64())));
                Ok(())
            },

            Instruction::Rotr(r, r1) => {
                let raw = self.reg(r1);
                let v = self.reg(r);
                self.set_and_adv(r, rotate_right_64(v, clamp_rotation(raw)));
                Ok(())
            },

            Instruction::Rotri(i, r) => {
                let v = self.reg(r);
                self.set_and_adv(r, rotate_right_64(v, clamp_rotation(i.as_u64())));
                Ok(())
            },
            _ => {
                proof {
                    assert(false);
                }
                Ok(())
            },
        }
    }

    /// Executes one instruction of its family; a full cycle of `step`.
    #[verifier::spinoff_prover]
    #[verifier::rlimit(100)]
    fn execute_float_op<H: SyscallHandler>(&mut self, instr: Instruction, handler: &mut H) -> (r: Result<
        (),
        VMError,
    >)
        requires
            old(self).wf(),
            old(self)@.ip < old(self)@.instrs.len(),
            is_float_op(instr),
        ensures
            final(self).wf(),
            steps_to(old(self)@, instr, final(self)@, r),
    {
        match instr {
            Instruction::Addf(r, r1, r2) => {
                let a = self.reg(r1);
                let b = self.reg(r2);
                let v = add_f64_bits(a, b);
                self.set_and_adv(r, v);
                Ok(())
            },

            Instruction::Subf(r, r1, r2) => {
                let a = self.reg(r1);
                let b = self.reg(r2);
                let v = sub_f64_bits(a, b);
                self.set_and_adv(r, v);
                Ok(())
            },

            Instruction::Mulf(r, r1, r2) => {
                let a = self.reg(r1);
                let b = self.reg(r2);
                let v = mul_f64_bits(a, b);
                self.set_and_adv(r, v);
                Ok(())
            },

            Instruction::Divf(r, r1, r2) => {
                let a = self.reg(r1);
                let b = self.reg(r2);
                let v = div_f64_bits(a, b);
                self.set_and_adv(r, v);
                Ok(())
            },

            Instruction::I2f(r) => {
                let v = self.reg(r);
                let bits = convert_i64_to_f64_bits(v);
                self.set_and_adv(r, bits);
                Ok(())
            },

            Instruction::F2i(r) => {
                let v = self.reg(r);
                let bits = truncate_f64_bits(v);
                self.set_and_adv(r, bits);
                Ok(())
            },
            _ => {
                proof {
                    assert(false);
                }
                Ok(())
            },
        }
    }

    /// Executes one instruction of its family; a full cycle of `step`.
    #[verifier::spinoff_prover]
    #[verifier::rlimit(100)]
    fn execute_cmp_op<H: SyscallHandler>(&mut self, instr: Instruction, handler: &mut H) -> (r: Result<
        (),
        VMError,
    >)
        requires
            old(self).wf(),
            old(self)@.ip < old(self)@.instrs.len(),
            is_cmp_op(instr),
        ensures
            final(self).wf(),
            steps_to(old(self)@, instr, final(self)@, r),
    {
        match instr {
            Instruction::Cmp(r, r1) => {
                let l = self.reg(r);
                let rr = self.reg(r1);
                let v: u64 = if l == rr {
                    0b001
                } else if l < rr {
                    0b010
                } else {
                    0b100
                };
                self.write_flags(v);
                Ok(())
            },

            Instruction::Cmpi(r, r1) => {
                let l = self.reg(r) as i64;
                let rr = self.reg(r1) as i64;
                let v: u64 = if l == rr {
                    0b001
                } else if l < rr {
                    0b010
                } else {
                    0b100
                };
                self.write_flags(v);
                Ok(())
            },

            Instruction::Cmpf(r, r1) => {
                let l = self.reg(r);
                let rr = self.reg(r1);
                let v = compare_f64_bits(l, rr);
                self.write_flags(v);
                Ok(())
            },
            _ => {
                proof {
                    assert(false);
                }
                Ok(())
            },
        }
    }

    /// Executes one instruction of its family; a full cycle of `step`.
    #[verifier::spinoff_prover]
    #[verifier::rlimit(100)]
    fn execute_jump_op<H: SyscallHandler>(&mut self, instr: Instruction, handler: &mut H) -> (r: Result<
        (),
        VMError,
    >)
        requires
            old(self).wf(),
            old(self)@.ip < old(self)@.instrs.len(),
            is_jump_op(instr),
        ensures
            final(self).wf(),
            steps_to(old(self)@, instr, final(self)@, r),
    {
        match instr {
            Instruction::Jmp(a) => {
                self.ip = a.as_u64() as usize;
                proof {
                    assert(self@ =~= jump_to(old(self)@, a.bits));
                }
                Ok(())
            },


            Instruction::Jeq(a) => {
                let f = self.register_bank.get_value(3);
                if f & 0b001 == 1 {
                    self.ip = a.as_u64() as usize;
                    proof {
                        assert(self@ =~= jump_to(old(self)@, a.bits));
                    }
                } else {
                    self.advance();
                }
                Ok(())
            },

            Instruction::Jne(a) => {
                let f = self.register_bank.get_value(3);
                if f & 0b001 == 0 {
                    self.ip = a.as_u64() as usize;
                    proof {
                        assert(self@ =~= jump_to(old(self)@, a.bits));
                    }
                } else {
                    self.advance();
                }
                Ok(())
            },

            Instruction::Jge(a) => {
                let f = self.register_bank.get_value(3);
                if (f & 0b100) >> 2u64 == 1 || f & 0b001 == 1 {
                    self.ip = a.as_u64() as usize;
                    proof {
                        assert(self@ =~= jump_to(old(self)@, a.bits));
                    }
                } else {
                    self.advance();
                }
                Ok(())
            },

            Instruction::Jgt(a) => {
                let f = self.register_bank.get_value(3);
                if (f & 0b100) >> 2u64 == 1 {
                    self.ip = a.as_u64() as usize;
                    proof {
                        assert(self@ =~= jump_to(old(self)@, a.bits));
                    }
                } else {
                    self.advance();
                }
                Ok(())
            },

            Instruction::Jle(a) => {
                let f = self.register_bank.get_value(3);
                if (f & 0b010) >> 1u64 == 1 || f & 0b001 == 1 {
                    self.ip = a.as_u64() as usize;
                    proof {
                        assert(self@ =~= jump_to(old(self)@, a.bits));
                    }
                } else {
                    self.advance();
                }
                Ok(())
            },

            Instruction::Jlt(a) => {
                let f = self.register_bank.get_value(3);
                if (f & 0b010) >> 1u64 == 1 {
                    self.ip = a.as_u64() as usize;
                    proof {
                        assert(self@ =~= jump_to(old(self)@, a.bits));
                    }
                } else {
                    self.advance();
                }
                Ok(())
            },
            _ => {
                proof {
                    assert(false);
                }
                Ok(())
            },
        }
    }

    /// Executes one instruction of its family; a full cycle of `step`.
    #[verifier::spinoff_prover]
    #[verifier::rlimit(100)]
    fn execute_signed_op<H: SyscallHandler>(&mut self, instr: Instruction, handler: &mut H) -> (r: Result<
        (),
        VMError,
    >)
        requires
            old(self).wf(),
            old(self)@.ip < old(self)@.instrs.len(),
            is_signed_op(instr),
        ensures
            final(self).wf(),
            steps_to(old(self)@, instr, final(self)@, r),
    {
        match instr {
            Instruction::Addi(r, r1, r2) => {
                let a = self.reg(r1) as i64;
                let b = self.reg(r2) as i64;
                match self.compute_i64_add(a, b) {
                    Ok(v) => {
                        self.set_and_adv(r, v as u64);
                        Ok(())
                    },
                    Err(e) => Err(e),
                }
            },


            Instruction::Subi(r, r1, r2) => {
                let a = self.reg(r1) as i64;
                let b = self.reg(r2) as i64;
                match self.compute_i64_sub(a, b) {
                    Ok(v) => {
                        self.set_and_adv(r, v as u64);
                        Ok(())
                    },
                    Err(e) => Err(e),
                }
            },

            Instruction::Muli(r, r1, r2) => {
                let a = self.reg(r1) as i64;
                let b = self.reg(r2) as i64;
                match self.compute_i64_mul(a, b) {
                    Ok(v) => {
                        self.set_and_adv(r, v as u64);
                        Ok(())
                    },
                    Err(e) => Err(e),
                }
            },

            Instruction::Divi(r, r1, r2) => {
                let a = self.reg(r1) as i64;
                let b = self.reg(r2) as i64;
                match self.compute_i64_div(a, b) {
                    Ok(v) => {
                        self.set_and_adv(r, v as u64);
                        Ok(())
                    },
                    Err(e) => Err(e),
                }
            },

            Instruction::Modi(r, r1, r2) => {
                let a = self.reg(r1) as i64;
                let b = self.reg(r2) as i64;
                match self.compute_i64_mod(a, b) {
                    Ok(v) => {
                        self.set_and_adv(r, v as u64);
                        Ok(())
                    },
                    Err(e) => Err(e),
                }
            },
            _ => {
                proof {
                    assert(false);
                }
                Ok(())
            },
        }
    }

    /// Executes one instruction of its family; a full cycle of `step`.
    #[verifier::spinoff_prover]
    #[verifier::rlimit(100)]
    fn execute_unsigned_op<H: SyscallHandler>(&mut self, instr: Instruction, handler: &mut H) -> (r: Result<
        (),
        VMError,
    >)
        requires
            old(self).wf(),
            old(self)@.ip < old(self)@.instrs.len(),
            is_unsigned_op(instr),
        ensures
            final(self).wf(),
            steps_to(old(self)@, instr, final(self)@, r),
    {
        match instr {
            Instruction::Addu(r, r1, r2) => {
                let a = self.reg(r1);
                let b = self.reg(r2);
                match self.compute_u64_add(a, b) {
                    Ok(v) => {
                        self.set_and_adv(r, v);
                        Ok(())
                    },
                    Err(e) => Err(e),
                }
            },

            Instruction::Subu(r, r1, r2) => {
                let a = self.reg(r1);
                let b = self.reg(r2);
                match self.compute_u64_sub(a, b) {
                    Ok(v) => {
                        self.set_and_adv(r, v);
                        Ok(())
                    },
                    Err(e) => Err(e),
                }
            },

            Instruction::Mulu(r, r1, r2) => {
                let a = self.reg(r1);
                let b = self.reg(r2);
                match self.compute_u64_mul(a, b) {
                    Ok(v) => {
                        self.set_and_adv(r, v);
                        Ok(())
                    },
                    Err(e) => Err(e),
                }
            },

            Instruction::Divu(r, r1, r2) => {
                let a = self.reg(r1);
                let b = self.reg(r2);
                match self.compute_u64_div(a, b) {
                    Ok(v) => {
                        self.set_and_adv(r, v);
                        Ok(())
                    },
                    Err(e) => Err(e),
                }
            },

            Instruction::Modu(r, r1, r2) => {
                let a = self.reg(r1);
                let b = self.reg(r2);
                match self.compute_u64_mod(a, b) {
                    Ok(v) => {
                        self.set_and_adv(r, v);
                        Ok(())
                    },
                    Err(e) => Err(e),
                }
            },
            _ => {
                proof {
                    assert(false);
                }
                Ok(())
            },
        }
    }

    /// Executes one instruction of its family; a full cycle of `step`.
    #[verifier::spinoff_prover]
    #[verifier::rlimit(100)]
    fn execute_alloc_op<H: SyscallHandler>(&mut self, instr: Instruction, handler: &mut H) -> (r: Result<
        (),
        VMError,
    >)
        requires
            old(self).wf(),
            old(self)@.ip < old(self)@.instrs.len(),
            is_alloc_op(instr),
        ensures
            final(self).wf(),
            steps_to(old(self)@, instr, final(self)@, r),
    {
        match instr {
            Instruction::Malloc(r, r1) => {
                let size = self.reg(r1);
                self.malloc_op(r, size)
            },


            Instruction::Malloci(i, r) => {
                let size = i.as_u64();
                self.malloc_op(r, size)
            },

            Instruction::Free(r) => {
                let address = self.reg(r);
                self.free_op(address)
            },

            Instruction::Freea(a) => self.free_op(a.as_u64()),

            Instruction::Length(r, r1) => {
                let address = self.reg(r1);
                let v: u64 = match self.memory.retrieve(&address) {
                    None => {
                        return Err(VMError::FailedGetNoAddressError(address));
                    },
                    Some(block) => block.len() as u64,
                };
                self.set_and_adv(r, v);
                Ok(())
            },

            Instruction::Clone(r, r1) => {
                let src = self.reg(r1);
                self.clone_op(r, src)
            },
            _ => {
                proof {
                    assert(false);
                }
                Ok(())
            },
        }
    }

    /// Executes one instruction of its family; a full cycle of `step`.
    #[verifier::spinoff_prover]
    #[verifier::rlimit(100)]
    fn execute_block_op<H: SyscallHandler>(&mut self, instr: Instruction, handler: &mut H) -> (r: Result<
        (),
        VMError,
    >)
        requires
            old(self).wf(),
            old(self)@.ip < old(self)@.instrs.len(),
            is_block_op(instr),
        ensures
            final(self).wf(),
            steps_to(old(self)@, instr, final(self)@, r),
    {
        match instr {
            Instruction::Setb(r, r1, r2) => {
                let address = self.reg(r);
                let index = self.reg(r1);
                let value = self.reg(r2);
                self.store_byte_op(address, index, value)
            },

            Instruction::Seti(r, r1, r2) => {
                let address = self.reg(r);
                let index = self.reg(r1);
                let value = self.reg(r2);
                self.store_word_op(address, index, value)
            },

            Instruction::Isetb(i, r, r1) => {
                let address = self.reg(r);
                let value = self.reg(r1);
                self.store_byte_op(address, i.as_u64(), value)
            },

            Instruction::Iseti(i, r, r1) => {
                let address = self.reg(r);
                let value = self.reg(r1);
                self.store_word_op(address, i.as_u64(), value)
            },

            Instruction::Getb(r, r1, r2) => {
                let address = self.reg(r1);
                let offset = self.reg(r2);
                self.load_byte_op(r, address, offset)
            },

            Instruction::Geti(r, r1, r2) => {
                let address = self.reg(r1);
                let offset = self.reg(r2);
                self.load_word_op(r, address, offset)
            },

            Instruction::Igetb(i, r, r1) => {
                let address = self.reg(r1);
                self.load_byte_op(r, address, i.as_u64())
            },

            Instruction::Igeti(i, r, r1) => {
                let address = self.reg(r1);
                self.load_word_op(r, address, i.as_u64())
            },

            Instruction::Last(r, r1) => {
                let address = self.reg(r1);
                self.last_op(r, address)
            },
            _ => {
                proof {
                    assert(false);
                }
                Ok(())
            },
        }
    }

    /// Executes one instruction of its family; a full cycle of `step`.
    #[verifier::spinoff_prover]
    #[verifier::rlimit(100)]
    fn execute_move_op<H: SyscallHandler>(&mut self, instr: Instruction, handler: &mut H) -> (r: Result<
        (),
        VMError,
    >)
        requires
            old(self).wf(),
            old(self)@.ip < old(self)@.instrs.len(),
            is_move_op(instr),
        ensures
            final(self).wf(),
            steps_to(old(self)@, instr, final(self)@, r),
    {
        match instr {
            Instruction::Copy(r, r1, r2, r3, r4) => {
                let dest = self.reg(r);
                let doff = self.reg(r1);
                let src = self.reg(r2);
                let soff = self.reg(r3);
                let n = self.reg(r4);
                self.copy_op(dest, doff, src, soff, n)
            },

            Instruction::Copyi(i, i1, i2, r, r1) => {
                let dest = self.reg(r);
                let src = self.reg(r1);
                self.copy_op(dest, i.as_u64(), src, i1.as_u64(), i2.as_u64())
            },

            Instruction::Swpa(a, a1) => self.swap_op(a.as_u64(), a1.as_u64()),

            Instruction::Swpar(r, r1) => {
                let x = self.reg(r);
                let y = self.reg(r1);
                self.swap_op(x, y)
            },
            _ => {
                proof {
                    assert(false);
                }
                Ok(())
            },
        }
    }

    /// Executes one instruction of its family; a full cycle of `step`.
    #[verifier::spinoff_prover]
    #[verifier::rlimit(100)]
    fn execute_stack_op<H: SyscallHandler>(&mut self, instr: Instruction, handler: &mut H) -> (r: Result<
        (),
        VMError,
    >)
        requires
            old(self).wf(),
            old(self)@.ip < old(self)@.instrs.len(),
            is_stack_op(instr),
        ensures
            final(self).wf(),
            steps_to(old(self)@, instr, final(self)@, r),
    {
        match instr {
            Instruction::Push(r) => {
                let v = self.reg(r);
                match self.push_stack(v) {
                    Ok(_) => {
                        self.advance();
                        Ok(())
                    },
                    Err(e) => Err(e),
                }
            },


            Instruction::Pop(r) => {
                match self.pop_stack() {
                    Ok(v) => {
                        self.set_and_adv(r, v);
                        Ok(())
                    },
                    Err(e) => Err(e),
                }
            },

            Instruction::Sget(r, r1) => {
                let top = self.reg(r1);
                match self.stack.get_top_u64(top) {
                    Some(v) => {
                        self.set_and_adv(r, v);
                        Ok(())
                    },
                    None => Err(VMError::AccessBeyondStackBounds),
                }
            },
            _ => {
                proof {
                    assert(false);
                }
                Ok(())
            },
        }
    }

    /// Executes one instruction of its family; a full cycle of `step`.
    #[verifier::spinoff_prover]
    #[verifier::rlimit(100)]
    fn execute_frame_op<H: SyscallHandler>(&mut self, instr: Instruction, handler: &mut H) -> (r: Result<
        (),
        VMError,
    >)
        requires
            old(self).wf(),
            old(self)@.ip < old(self)@.instrs.len(),
            is_frame_op(instr),
        ensures
            final(self).wf(),
            steps_to(old(self)@, instr, final(self)@, r),
    {
        match instr {
            Instruction::Call(a) => {
                let rfp = self.register_bank.get_value(1);
                match self.push_stack(rfp) {
                    Err(e) => {
                        return Err(e);
                    },
                    Ok(_) => {},
                }
                let rsp = self.register_bank.get_value(0);
                match self.push_stack(rsp) {
                    Err(e) => {
                        return Err(e);
                    },
                    Ok(_) => {},
                }
                let n = self.instructions.len();
                let ret_ip = self.ip as u64 + 1;
                match self.push_stack(ret_ip) {
                    Err(e) => {
                        return Err(e);
                    },
                    Ok(_) => {},
                }
                let rfp2 = self.register_bank.get_value(1);
                self.register_bank.set_value(0, rfp2);
                self.ip = a.as_u64() as usize;
                proof {
                    assert(steps_to(old(self)@, instr, self@, Ok::<(), VMError>(()))) by {
                        let s = old(self)@;
                        let p1 = spec_push(s, s.regs[1]);
                        let p2 = spec_push(p1.0, p1.0.regs[0]);
                        let p3 = spec_push(p2.0, (s.ip + 1) as u64);
                        assert(self@ =~= jump_to(
                            MState { regs: p3.0.regs.update(0, p3.0.regs[1]), ..p3.0 },
                            a.bits,
                        ));
                    }
                }
                Ok(())
            },

            Instruction::Ret => {
                let ip_v = match self.pop_stack() {
                    Err(e) => {
                        return Err(e);
                    },
                    Ok(v) => v,
                };
                let rsp = match self.pop_stack() {
                    Err(e) => {
                        return Err(e);
                    },
                    Ok(v) => v,
                };
                let rfp = match self.pop_stack() {
                    Err(e) => {
                        return Err(e);
                    },
                    Ok(v) => v,
                };
                self.ip = ip_v as usize;
                self.register_bank.set_value(0, rsp);
                self.register_bank.set_value(1, rfp);
                proof {
                    assert(steps_to(old(self)@, instr, self@, Ok::<(), VMError>(()))) by {
                        let s = old(self)@;
                        let p1 = spec_pop(s);
                        let p2 = spec_pop(p1.0);
                        let p3 = spec_pop(p2.0);
                        assert(self@ =~= (MState {
                            regs: p3.0.regs.update(0, p2.2).update(1, p3.2),
                            ip: (p1.2 as usize) as int,
                            ..p3.0
                        }));
                    }
                }
                Ok(())
            },
            _ => {
                proof {
                    assert(false);
                }
                Ok(())
            },
        }
    }

    /// Executes one already-fetched instruction: a full cycle of `step`
    /// for everything but a system call, which is dispatched to the
    /// handler.
    fn execute_instruction<H: SyscallHandler>(
        &mut self,
        instr: Instruction,
        handler: &mut H,
    ) -> (r: Result<(), VMError>)
        requires
            old(self).wf(),
            old(self)@.ip < old(self)@.instrs.len(),
        ensures
            final(self).wf(),
            !(instr is Syscall) ==> steps_to(old(self)@, instr, final(self)@, r),
            instr is Syscall ==> final(self)@.instrs == old(self)@.instrs
                && final(self)@.behaviour == old(self)@.behaviour
                && final(self)@.stack == old(self)@.stack
                && (r is Ok ==> final(self)@.ip == old(self)@.ip + 1 && syscall_cycle(
                old(self)@,
                final(self)@,
            ))
                && (r is Err ==> r == Err::<(), VMError>(
                VMError::UnknownSystemCall(instr->Syscall_0.bits),
            ) && final(self)@.ip == old(self)@.ip),
    {
        match instr {
            Instruction::Syscall(i) => self.execute_syscall(handler, i),
            Instruction::Nop | Instruction::Ldb(..) | Instruction::Ldi(..) | Instruction::Ldf(..) | Instruction::Mov(..) | Instruction::Halt | Instruction::Swpr(..) => self.execute_load_op(instr, handler),
            Instruction::Not(..) | Instruction::And(..) | Instruction::Or(..) | Instruction::Xor(..) | Instruction::Sll(..) | Instruction::Slli(..) | Instruction::Srl(..) | Instruction::Srli(..) => self.execute_bit_op(instr, handler),
            Instruction::Rotl(..) | Instruction::Rotli(..) | Instruction::Rotr(..) | Instruction::Rotri(..) => self.execute_rot_op(instr, handler),
            Instruction::Addf(..) | Instruction::Subf(..) | Instruction::Mulf(..) | Instruction::Divf(..) | Instruction::I2f(..) | Instruction::F2i(..) => self.execute_float_op(instr, handler),
            Instruction::Cmp(..) | Instruction::Cmpi(..) | Instruction::Cmpf(..) => self.execute_cmp_op(instr, handler),
            Instruction::Jmp(..) | Instruction::Jeq(..) | Instruction::Jne(..) | Instruction::Jge(..) | Instruction::Jgt(..) | Instruction::Jle(..) | Instruction::Jlt(..) => self.execute_jump_op(instr, handler),
            Instruction::Addi(..) | Instruction::Subi(..) | Instruction::Muli(..) | Instruction::Divi(..) | Instruction::Modi(..) => self.execute_signed_op(instr, handler),
            Instruction::Addu(..) | Instruction::Subu(..) | Instruction::Mulu(..) | Instruction::Divu(..) | Instruction::Modu(..) => self.execute_unsigned_op(instr, handler),
            Instruction::Malloc(..) | Instruction::Malloci(..) | Instruction::Free(..) | Instruction::Freea(..) | Instruction::Length(..) | Instruction::Clone(..) => self.execute_alloc_op(instr, handler),
            Instruction::Setb(..) | Instruction::Seti(..) | Instruction::Isetb(..) | Instruction::Iseti(..) | Instruction::Getb(..) | Instruction::Geti(..) | Instruction::Igetb(..) | Instruction::Igeti(..) | Instruction::Last(..) => self.execute_block_op(instr, handler),
            Instruction::Copy(..) | Instruction::Copyi(..) | Instruction::Swpa(..) | Instruction::Swpar(..) => self.execute_move_op(instr, handler),
            Instruction::Push(..) | Instruction::Pop(..) | Instruction::Sget(..) => self.execute_stack_op(instr, handler),
            Instruction::Call(..) | Instruction::Ret => self.execute_frame_op(instr, handler),
        }
    }
    /// Replaces the condition bits of the flags register, preserving the
    /// upper bits, and advances the instruction pointer.
    fn write_flags(&mut self, v: u64)
        requires
            old(self).wf(),
            old(self)@.ip < old(self)@.instrs.len(),
        ensures
            final(self).wf(),
            final(self)@ == adv(set_flags(old(self)@, v)),
    {
        let f = self.register_bank.get_value(3);
        self.register_bank.set_value(3, (f & 0xFFFFFFFFFFFFFFF8) | v);
        // reading the length establishes that the incremented pointer fits
        let n = self.instructions.len();
        self.ip = self.ip + 1;
        proof {
            assert(self@ =~= adv(set_flags(old(self)@, v)));
        }
    }

    /// Executes the instruction at the instruction pointer: fails on a
    /// halted machine, and with `NoInstruction` when the pointer has run
    /// past the end of the program.
    pub fn run_next<H: SyscallHandler>(&mut self, handler: &mut H) -> (r: Result<(), VMError>)
        requires
            old(self).wf(),
            old(self)@.halted || old(self)@.ip != old(self)@.instrs.len(),
        ensures
            final(self).wf(),
            old(self)@.halted ==> r == Err::<(), VMError>(VMError::SystemHalted) && final(self)@
                == old(self)@,
            !old(self)@.halted && old(self)@.ip > old(self)@.instrs.len() ==> r == Err::<
                (),
                VMError,
            >(VMError::NoInstruction) && final(self)@ == old(self)@,
            !old(self)@.halted && old(self)@.ip < old(self)@.instrs.len() && !(old(self)@.instrs[old(self)@.ip] is Syscall) ==> steps_to(
                old(self)@,
                old(self)@.instrs[old(self)@.ip],
                final(self)@,
                r,
            ),
            !old(self)@.halted && old(self)@.ip < old(self)@.instrs.len() && old(self)@.instrs[old(self)@.ip] is Syscall ==> final(self)@.instrs == old(self)@.instrs && final(self)@.behaviour == old(self)@.behaviour && final(self)@.stack == old(self)@.stack && (
            r is Ok ==> final(self)@.ip == old(self)@.ip + 1 && syscall_cycle(
                old(self)@,
                final(self)@,
            )) && (r is Err ==> r == Err::<
                (),
                VMError,
            >(
                VMError::UnknownSystemCall(old(self)@.instrs[old(self)@.ip]->Syscall_0.bits),
            ) && final(self)@.ip == old(self)@.ip),
    {
        if self.halted {
            return Err(VMError::SystemHalted);
        }
        if self.ip > self.instructions.len() {
            return Err(VMError::NoInstruction);
        }
        let instr = self.instructions[self.ip];
        self.execute_instruction(instr, handler)
    }

    /// Runs the machine until it halts, fails, or the instruction pointer
    /// runs past the end of the program. A machine that is already halted
    /// or past the end succeeds unchanged; a successful run ends in a state
    /// `reaches` connects to the starting one by whole cycles; a failure is
    /// the first failing cycle's error, returned unchanged with that
    /// cycle's partial effects kept. The machine executes at most
    /// `u64::MAX` cycles in one call; only a program still running after a
    /// trace of that many cycles is reported as an unknown failure, the
    /// machine left as its last completed cycle left it.
    pub fn run<H: SyscallHandler>(&mut self, handler: &mut H) -> (r: Result<(), VMError>)
        requires
            old(self).wf(),
        ensures
            final(self).wf(),
            old(self)@.halted ==> r == Ok::<(), VMError>(()) && final(self)@ == old(self)@,
            !old(self)@.halted && old(self)@.ip >= old(self)@.instrs.len() ==> r == Ok::<
                (),
                VMError,
            >(()) && final(self)@ == old(self)@,
            r == Ok::<(), VMError>(()) ==> reaches(old(self)@, final(self)@) && (final(self)@.halted || final(self)@.ip >= final(self)@.instrs.len()),
            r matches Err(e) ==> exists|mid: MState|
                #[trigger] reaches(old(self)@, mid) && (cycle_fails(mid, final(self)@, e) || (
                e matches VMError::Unknown(_) && final(self)@ == mid && !mid.halted && mid.ip
                    < mid.instrs.len() && (exists|t: Seq<MState>|
                    #[trigger] trace_ok(t, old(self)@, final(self)@) && t.len() > u64::MAX))),
    {
        proof {
            lemma_reaches_refl(old(self)@);
        }
        if self.halted || self.ip >= self.instructions.len() {
            return Ok(());
        }
        let mut cycles_left: u64 = u64::MAX;
        proof {
            assert(trace_ok(seq![old(self)@], old(self)@, old(self)@));
        }
        #[verifier::loop_isolation(false)]
        while self.ip < self.instructions.len() && !self.halted
            invariant
                self.wf(),
                exists|t: Seq<MState>|
                    #[trigger] trace_ok(t, old(self)@, self@) && t.len() == 1 + u64::MAX
                        - cycles_left,
            decreases cycles_left,
        {
            if cycles_left == 0 {
                proof {
                    let t = choose|t: Seq<MState>|
                        #[trigger] trace_ok(t, old(self)@, self@) && t.len() == 1 + u64::MAX
                            - cycles_left;
                    assert(trace_ok(t, old(self)@, self@) && t.len() > u64::MAX);
                    assert(reaches(old(self)@, self@));
                }
                return Err(VMError::Unknown(String::new()));
            }
            cycles_left = cycles_left - 1;
            let ghost pre_cycle = self@;
            match self.run_next(handler) {
                Ok(_) => {
                    proof {
                        let instr = pre_cycle.instrs[pre_cycle.ip];
                        if !(instr is Syscall) {
                            assert(step(pre_cycle, instr).1 is None) by {
                                if step(pre_cycle, instr).1 is Some {
                                    assert(false);
                                }
                            }
                            assert(step(pre_cycle, instr) == (self@, None::<VMError>));
                        }
                        assert(cycle_ok(pre_cycle, self@));
                        lemma_trace_extend(
                            old(self)@,
                            pre_cycle,
                            self@,
                            1 + u64::MAX - (cycles_left + 1),
                        );
                    }
                },
                Err(e) => {
                    proof {
                        let instr = pre_cycle.instrs[pre_cycle.ip];
                        if !(instr is Syscall) {
                            assert(step(pre_cycle, instr).1 == Some(e)) by {
                                if step(pre_cycle, instr).1 is None {
                                    assert(false);
                                }
                            }
                        }
                        assert(cycle_fails(pre_cycle, self@, e));
                        assert(reaches(old(self)@, pre_cycle));
                    }
                    return Err(e);
                },
            }
        }
        proof {
            assert(reaches(old(self)@, self@));
        }
        Ok(())
    }
}

/// One successful system-call cycle from `a` to `b`: the handler ran
/// within its frame, its returned value landed in the output register, and
/// the instruction pointer advanced by one.
pub open spec fn syscall_cycle(a: MState, b: MState) -> bool {
    exists|mid: MState, v: u64|
        #![trigger syscall_frame(a, mid), mid.regs.update(2, v)]
        syscall_frame(a, mid) && b == (MState { regs: mid.regs.update(2, v), ip: mid.ip + 1, ..mid })
}

/// One successful execution cycle from `a` to `b`: the machine was running
/// and the cycle either followed `step` with no error or was a successful
/// system call.
pub open spec fn cycle_ok(a: MState, b: MState) -> bool {
    &&& !a.halted
    &&& 0 <= a.ip < a.instrs.len()
    &&& if a.instrs[a.ip] is Syscall {
        syscall_cycle(a, b)
    } else {
        step(a, a.instrs[a.ip]) == (b, None::<VMError>)
    }
}

/// One failing execution cycle from `a` to `b` with error `e`: the machine
/// was running, and either `step` failed with `e`, keeping the partial
/// effects `step` describes, or a system call came back unknown.
pub open spec fn cycle_fails(a: MState, b: MState, e: VMError) -> bool {
    &&& !a.halted
    &&& 0 <= a.ip < a.instrs.len()
    &&& if a.instrs[a.ip] is Syscall {
        &&& e == VMError::UnknownSystemCall(a.instrs[a.ip]->Syscall_0.bits)
        &&& b.instrs == a.instrs
        &&& b.stack == a.stack
        &&& b.behaviour == a.behaviour
        &&& b.ip == a.ip
    } else {
        step(a, a.instrs[a.ip]) == (b, Some(e))
    }
}

/// A witness that `post` follows from `pre` by the cycles the trace lists.
pub open spec fn trace_ok(t: Seq<MState>, pre: MState, post: MState) -> bool {
    &&& t.len() >= 1
    &&& t[0] == pre
    &&& t[t.len() - 1] == post
    &&& forall|i: int| 0 <= i < t.len() - 1 ==> #[trigger] cycle_ok(t[i], t[i + 1])
}

/// `post` is reachable from `pre` by zero or more successful execution
/// cycles.
pub open spec fn reaches(pre: MState, post: MState) -> bool {
    exists|t: Seq<MState>| #[trigger] trace_ok(t, pre, post)
}

/// Every state reaches itself, by the empty run.
pub proof fn lemma_reaches_refl(s: MState)
    ensures
        reaches(s, s),
{
    let t = seq![s];
    assert(trace_ok(t, s, s));
}

/// One more successful cycle extends a run of a known cycle count.
pub proof fn lemma_trace_extend(pre: MState, mid: MState, post: MState, n: int)
    requires
        exists|t: Seq<MState>| #[trigger] trace_ok(t, pre, mid) && t.len() == n,
        cycle_ok(mid, post),
    ensures
        exists|t: Seq<MState>| #[trigger] trace_ok(t, pre, post) && t.len() == n + 1,
{
    let t = choose|t: Seq<MState>| #[trigger] trace_ok(t, pre, mid) && t.len() == n;
    let t2 = t.push(post);
    assert(trace_ok(t2, pre, post)) by {
        assert(t2[0] == t[0]);
        assert(t2[t2.len() - 1] == post);
        assert forall|i: int| 0 <= i < t2.len() - 1 implies #[trigger] cycle_ok(
            t2[i],
            t2[i + 1],
        ) by {
            if i < t.len() - 1 {
                assert(t2[i] == t[i] && t2[i + 1] == t[i + 1]);
                assert(cycle_ok(t[i], t[i + 1]));
            } else {
                assert(i == t.len() - 1);
                assert(t2[i] == mid && t2[i + 1] == post);
            }
        }
    }
}

/// A 64-bit rotation left by `n` bit positions.
pub fn rotate_left_64(v: u64, n: u32) -> (r: u64)
    ensures
        r == spec_rotl(v, n),
{
    let sh: u64 = (n % 64) as u64;
    if sh == 0 {
        v
    } else {
        (v << sh) | (v >> (64 - sh))
    }
}

/// A 64-bit rotation right by `n` bit positions.
pub fn rotate_right_64(v: u64, n: u32) -> (r: u64)
    ensures
        r == spec_rotr(v, n),
{
    let sh: u64 = (n % 64) as u64;
    if sh == 0 {
        v
    } else {
        (v >> sh) | (v << (64 - sh))
    }
}

/// The rotation count an operand selects: counts above the 32-bit range
/// are pinned to the largest 32-bit value.
pub fn clamp_rotation(raw: u64) -> (r: u32)
    ensures
        r == rot_count(raw),
{
    if raw > u32::MAX as u64 {
        u32::MAX
    } else {
        raw as u32
    }
}

/// A logical left shift; shifting by 64 or more clears the value.
pub fn shift_left_64(v: u64, sh: u64) -> (r: u64)
    ensures
        r == spec_shl(v, sh),
{
    if sh >= 64 {
        0
    } else {
        v << sh
    }
}

/// A logical right shift; shifting by 64 or more clears the value.
pub fn shift_right_64(v: u64, sh: u64) -> (r: u64)
    ensures
        r == spec_shr(v, sh),
{
    if sh >= 64 {
        0
    } else {
        v >> sh
    }
}








/// Membership of one family of the dispatch.
pub open spec fn is_load_op(instr: Instruction) -> bool {
    match instr {
        Instruction::Nop | Instruction::Ldb(..) | Instruction::Ldi(..) | Instruction::Ldf(..) | Instruction::Mov(..) | Instruction::Halt | Instruction::Swpr(..) => true,
        _ => false,
    }
}

/// Membership of one family of the dispatch.
pub open spec fn is_bit_op(instr: Instruction) -> bool {
    match instr {
        Instruction::Not(..) | Instruction::And(..) | Instruction::Or(..) | Instruction::Xor(..) | Instruction::Sll(..) | Instruction::Slli(..) | Instruction::Srl(..) | Instruction::Srli(..) => true,
        _ => false,
    }
}

/// Membership of one family of the dispatch.
pub open spec fn is_rot_op(instr: Instruction) -> bool {
    match instr {
        Instruction::Rotl(..) | Instruction::Rotli(..) | Instruction::Rotr(..) | Instruction::Rotri(..) => true,
        _ => false,
    }
}

/// Membership of one family of the dispatch.
pub open spec fn is_float_op(instr: Instruction) -> bool {
    match instr {
        Instruction::Addf(..) | Instruction::Subf(..) | Instruction::Mulf(..) | Instruction::Divf(..) | Instruction::I2f(..) | Instruction::F2i(..) => true,
        _ => false,
    }
}

/// Membership of one family of the dispatch.
pub open spec fn is_cmp_op(instr: Instruction) -> bool {
    match instr {
        Instruction::Cmp(..) | Instruction::Cmpi(..) | Instruction::Cmpf(..) => true,
        _ => false,
    }
}

/// Membership of one family of the dispatch.
pub open spec fn is_jump_op(instr: Instruction) -> bool {
    match instr {
        Instruction::Jmp(..) | Instruction::Jeq(..) | Instruction::Jne(..) | Instruction::Jge(..) | Instruction::Jgt(..) | Instruction::Jle(..) | Instruction::Jlt(..) => true,
        _ => false,
    }
}

/// Membership of one family of the dispatch.
pub open spec fn is_signed_op(instr: Instruction) -> bool {
    match instr {
        Instruction::Addi(..) | Instruction::Subi(..) | Instruction::Muli(..) | Instruction::Divi(..) | Instruction::Modi(..) => true,
        _ => false,
    }
}

/// Membership of one family of the dispatch.
pub open spec fn is_unsigned_op(instr: Instruction) -> bool {
    match instr {
        Instruction::Addu(..) | Instruction::Subu(..) | Instruction::Mulu(..) | Instruction::Divu(..) | Instruction::Modu(..) => true,
        _ => false,
    }
}

/// Membership of one family of the dispatch.
pub open spec fn is_alloc_op(instr: Instruction) -> bool {
    match instr {
        Instruction::Malloc(..) | Instruction::Malloci(..) | Instruction::Free(..) | Instruction::Freea(..) | Instruction::Length(..) | Instruction::Clone(..) => true,
        _ => false,
    }
}

/// Membership of one family of the dispatch.
pub open spec fn is_block_op(instr: Instruction) -> bool {
    match instr {
        Instruction::Setb(..) | Instruction::Seti(..) | Instruction::Isetb(..) | Instruction::Iseti(..) | Instruction::Getb(..) | Instruction::Geti(..) | Instruction::Igetb(..) | Instruction::Igeti(..) | Instruction::Last(..) => true,
        _ => false,
    }
}

/// Membership of one family of the dispatch.
pub open spec fn is_move_op(instr: Instruction) -> bool {
    match instr {
        Instruction::Copy(..) | Instruction::Copyi(..) | Instruction::Swpa(..) | Instruction::Swpar(..) => true,
        _ => false,
    }
}

/// Membership of one family of the dispatch.
pub open spec fn is_stack_op(instr: Instruction) -> bool {
    match instr {
        Instruction::Push(..) | Instruction::Pop(..) | Instruction::Sget(..) => true,
        _ => false,
    }
}

/// Membership of one family of the dispatch.
pub open spec fn is_frame_op(instr: Instruction) -> bool {
    match instr {
        Instruction::Call(..) | Instruction::Ret => true,
        _ => false,
    }
}

} // verus!
