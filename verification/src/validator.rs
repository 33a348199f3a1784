//! The decoder: turns a payload byte stream into typed instructions.
//!
//! The byte-level grammar of one instruction is the opcode byte, the
//! opcode's immediates (8 little-endian bytes each), its addresses (8
//! little-endian bytes each), and its registers packed two per byte, high
//! nibble first; when the register count is odd the low nibble of the last
//! register byte is reserved and ignored. `spec_take_instruction` is that
//! grammar written as a specification; the executable decoder is proved to
//! follow it exactly.

use vstd::bytes::spec_u64_from_le_bytes;
use vstd::prelude::*;
use vstd::slice::slice_subrange;

use crate::error::ValidatorError;
use crate::instruction::Instruction;
use crate::instruction_arguments::Address;
use crate::instruction_arguments::Immediate;
use crate::instruction_arguments::Register;

verus! {

/// The register encoded at position `k` of the packed register area that
/// starts at byte `base` of `s`: the high nibble of byte `base + k / 2` for
/// even `k`, its low nibble for odd `k`.
pub open spec fn spec_reg_at(s: Seq<u8>, base: int, k: int) -> Register {
    let byte = s[base + k / 2];
    if k % 2 == 0 {
        Register::spec_from_bits(byte >> 4)
    } else {
        Register::spec_from_bits(byte & 0xF)
    }
}

/// The outcome of decoding one instruction from the front of `s`: the
/// instruction and how many bytes it occupied, or the first decoding error.
pub open spec fn spec_take_instruction(s: Seq<u8>) -> Result<(Instruction, int), ValidatorError> {
    if s.len() == 0 {
        Err(ValidatorError::UnexpectedEndOfBytes)
    } else {
        let op = s[0];
        if Instruction::spec_register_count(op) is None {
            Err(ValidatorError::UnknownRegisterCountForOpcode)
        } else {
            let rc = Instruction::spec_register_count(op).unwrap() as int;
            let ac = Instruction::spec_address_count(op).unwrap() as int;
            let ic = Instruction::spec_immediate_count(op).unwrap() as int;
            let reg_bytes = (rc + 1) / 2;
            let total = 1 + 8 * ic + 8 * ac + reg_bytes;
            if s.len() < total {
                Err(ValidatorError::UnexpectedEndOfBytes)
            } else {
                let imms = Seq::new(
                    ic as nat,
                    |k: int| Immediate { bits: spec_u64_from_le_bytes(s.subrange(1 + 8 * k, 9 + 8 * k)) },
                );
                let addrs = Seq::new(
                    ac as nat,
                    |k: int|
                        Address {
                            bits: spec_u64_from_le_bytes(
                                s.subrange(1 + 8 * ic + 8 * k, 9 + 8 * ic + 8 * k),
                            ),
                        },
                );
                let regs = Seq::new(rc as nat, |k: int| spec_reg_at(s, 1 + 8 * ic + 8 * ac, k));
                match Instruction::spec_new(op, regs, addrs, imms) {
                    Some(i) => Ok((i, total)),
                    None => Err(ValidatorError::InvalidInstructionFormat),
                }
            }
        }
    }
}

/// The instruction list decoded from all of `s`, or the first error.
pub open spec fn spec_process_all(s: Seq<u8>) -> Result<Seq<Instruction>, ValidatorError>
    decreases s.len(),
{
    if s.len() == 0 {
        Ok(Seq::empty())
    } else {
        match spec_take_instruction(s) {
            Err(e) => Err(e),
            Ok((i, n)) => if 1 <= n <= s.len() {
                match spec_process_all(s.skip(n)) {
                    Ok(rest) => Ok(seq![i] + rest),
                    Err(e) => Err(e),
                }
            } else {
                // never reached: a decoded instruction occupies at least its
                // opcode byte and at most the bytes that were present
                Err(ValidatorError::UnexpectedEndOfBytes)
            },
        }
    }
}

/// A decoder over a growable byte buffer with a read cursor.
#[derive(Clone, PartialEq, Eq, Debug)]
pub struct BulkValidator {
    current_location: usize,
    bytes: Vec<u8>,
}

impl BulkValidator {
    /// The cursor never runs past the buffer.
    pub closed spec fn wf(self) -> bool {
        self.current_location <= self.bytes@.len()
    }

    /// The bytes not consumed yet.
    pub closed spec fn rem(self) -> Seq<u8> {
        self.bytes@.skip(self.current_location as int)
    }

    /// An empty decoder.
    pub fn new() -> (r: BulkValidator)
        ensures
            r.wf(),
            r.rem() == Seq::<u8>::empty(),
    {
        BulkValidator { current_location: 0, bytes: Vec::new() }
    }

    /// A decoder over the given bytes, cursor at the start.
    pub fn with_bytes(bytes: Vec<u8>) -> (r: BulkValidator)
        ensures
            r.wf(),
            r.rem() == bytes@,
    {
        let r = BulkValidator { current_location: 0, bytes };
        proof {
            assert(r.rem() =~= r.bytes@);
        }
        r
    }

    /// Appends the bytes to the unread part of the buffer.
    pub fn append_bytes(&mut self, bytes: Vec<u8>)
        requires
            old(self).wf(),
        ensures
            final(self).wf(),
            final(self).rem() == old(self).rem() + bytes@,
    {
        let ghost input = bytes@;
        let mut moved = bytes;
        self.bytes.append(&mut moved);
        proof {
            assert(self.bytes@ =~= old(self).bytes@ + input);
            assert(self.rem() =~= old(self).rem() + input);
        }
    }

    /// Appends one byte to the unread part of the buffer.
    pub fn append_byte(&mut self, byte: u8)
        requires
            old(self).wf(),
        ensures
            final(self).wf(),
            final(self).rem() == old(self).rem() + seq![byte],
    {
        self.bytes.push(byte);
        proof {
            assert(self.rem() =~= old(self).rem() + seq![byte]);
        }
    }

    /// Consumes and returns the next unread byte, if any.
    pub fn next_byte(&mut self) -> (r: Option<u8>)
        requires
            old(self).wf(),
        ensures
            final(self).wf(),
            old(self).rem().len() == 0 ==> r is None && *final(self) == *old(self),
            old(self).rem().len() > 0 ==> r == Some(old(self).rem()[0]) && final(self).rem()
                == old(self).rem().skip(1),
    {
        if self.current_location >= self.bytes.len() {
            None
        } else {
            self.current_location = self.current_location + 1;
            proof {
                assert(self.rem() =~= old(self).rem().skip(1));
            }
            Some(self.bytes[self.current_location - 1])
        }
    }

    /// Whether an unread byte remains.
    pub fn has_next_byte(&self) -> (r: bool)
        requires
            self.wf(),
        ensures
            r == (self.rem().len() > 0),
    {
        self.current_location < self.bytes.len()
    }

    /// Decodes the next instruction from the unread bytes, advancing the
    /// cursor past it; on a malformed instruction, reports the first error
    /// of the grammar.
    pub fn take_next_instruction(&mut self) -> (r: Result<Instruction, ValidatorError>)
        requires
            old(self).wf(),
        ensures
            final(self).wf(),
            match spec_take_instruction(old(self).rem()) {
                Ok(pair) => r == Ok::<Instruction, ValidatorError>(pair.0) && final(self).rem()
                    == old(self).rem().skip(pair.1),
                Err(e) => r == Err::<Instruction, ValidatorError>(e),
            },
    {
        let ghost srem = old(self).rem();
        let len = self.bytes.len();
        let loc0 = self.current_location;
        if loc0 >= len {
            return Err(ValidatorError::UnexpectedEndOfBytes);
        }
        let op = self.bytes[loc0];
        assert(op == srem[0]);
        let rc = match Instruction::register_count(op) {
            Some(c) => c,
            None => {
                self.current_location = loc0 + 1;
                return Err(ValidatorError::UnknownRegisterCountForOpcode);
            },
        };
        assert(op <= 0x45);
        let ac = match Instruction::address_count(op) {
            Some(c) => c,
            None => {
                self.current_location = loc0 + 1;
                return Err(ValidatorError::UnknownAddressCountForOpcode);
            },
        };
        let ic = match Instruction::immediate_count(op) {
            Some(c) => c,
            None => {
                self.current_location = loc0 + 1;
                return Err(ValidatorError::UnknownImmediateCountForOpcode);
            },
        };
        assert(ic <= 3 && ac <= 2 && rc <= 5);
        let reg_bytes: usize = ((rc as usize) + 1) / 2;
        let total: usize = 1 + 8 * (ic as usize) + 8 * (ac as usize) + reg_bytes;
        if len - loc0 < total {
            self.current_location = len;
            return Err(ValidatorError::UnexpectedEndOfBytes);
        }

        let mut immediates: Vec<Immediate> = Vec::new();
        let mut k: usize = 0;
        #[verifier::loop_isolation(false)]
        while k < ic as usize
            invariant
                k <= ic as usize,
                ic <= 3,
                loc0 + total <= self.bytes@.len(),
                total == 1 + 8 * (ic as usize) + 8 * (ac as usize) + reg_bytes,
                reg_bytes <= 3,
                self == old(self),
                srem == self.bytes@.skip(loc0 as int),
                loc0 == self.current_location,
                immediates@ =~= Seq::new(
                    k as nat,
                    |j: int|
                        Immediate {
                            bits: spec_u64_from_le_bytes(srem.subrange(1 + 8 * j, 9 + 8 * j)),
                        },
                ),
            decreases ic as usize - k,
        {
            assert(loc0 + 1 + 8 * k + 8 <= loc0 + total);
            let start = loc0 + 1 + 8 * k;
            let sl = slice_subrange(self.bytes.as_slice(), start, start + 8);
            assert(sl@ =~= srem.subrange(1 + 8 * (k as int), 9 + 8 * (k as int)));
            let v = vstd::bytes::u64_from_le_bytes(sl);
            immediates.push(Immediate::new(v));
            k = k + 1;
        }

        let mut addresses: Vec<Address> = Vec::new();
        let base_a: usize = loc0 + 1 + 8 * (ic as usize);
        let mut k: usize = 0;
        #[verifier::loop_isolation(false)]
        while k < ac as usize
            invariant
                k <= ac as usize,
                ac <= 2,
                ic <= 3,
                loc0 + total <= self.bytes@.len(),
                total == 1 + 8 * (ic as usize) + 8 * (ac as usize) + reg_bytes,
                reg_bytes <= 3,
                base_a == loc0 + 1 + 8 * (ic as usize),
                self == old(self),
                srem == self.bytes@.skip(loc0 as int),
                loc0 == self.current_location,
                addresses@ =~= Seq::new(
                    k as nat,
                    |j: int|
                        Address {
                            bits: spec_u64_from_le_bytes(
                                srem.subrange(
                                    1 + 8 * (ic as int) + 8 * j,
                                    9 + 8 * (ic as int) + 8 * j,
                                ),
                            ),
                        },
                ),
            decreases ac as usize - k,
        {
            assert(base_a + 8 * k + 8 <= loc0 + total);
            let start = base_a + 8 * k;
            let sl = slice_subrange(self.bytes.as_slice(), start, start + 8);
            assert(sl@ =~= srem.subrange(
                1 + 8 * (ic as int) + 8 * (k as int),
                9 + 8 * (ic as int) + 8 * (k as int),
            ));
            let v = vstd::bytes::u64_from_le_bytes(sl);
            addresses.push(Address::new(v));
            k = k + 1;
        }

        let mut registers: Vec<Register> = Vec::new();
        let base_r: usize = base_a + 8 * (ac as usize);
        let ghost gbase = 1 + 8 * (ic as int) + 8 * (ac as int);
        let mut k: usize = 0;
        #[verifier::loop_isolation(false)]
        while k < rc as usize
            invariant
                k <= rc as usize,
                rc <= 5,
                ac <= 2,
                ic <= 3,
                loc0 + total <= self.bytes@.len(),
                total == 1 + 8 * (ic as usize) + 8 * (ac as usize) + reg_bytes,
                reg_bytes == ((rc as usize) + 1) / 2,
                base_r == loc0 + 1 + 8 * (ic as usize) + 8 * (ac as usize),
                gbase == 1 + 8 * (ic as int) + 8 * (ac as int),
                self == old(self),
                srem == self.bytes@.skip(loc0 as int),
                loc0 == self.current_location,
                registers@ =~= Seq::new(k as nat, |j: int| spec_reg_at(srem, gbase, j)),
            decreases rc as usize - k,
        {
            assert(k / 2 < reg_bytes);
            assert(base_r + k / 2 < loc0 + total);
            let byte = self.bytes[base_r + k / 2];
            assert(byte == srem[gbase + (k as int) / 2]);
            let nib = if k % 2 == 0 {
                byte >> 4u8
            } else {
                byte & 0xF
            };
            registers.push(Register::from_bits(nib));
            proof {
                assert(registers@ =~= Seq::new(
                    (k + 1) as nat,
                    |j: int| spec_reg_at(srem, gbase, j),
                ));
            }
            k = k + 1;
        }

        self.current_location = loc0 + total;
        proof {
            assert(self.rem() =~= srem.skip(total as int));
        }
        match Instruction::new(op, registers, addresses, immediates) {
            Some(i) => Ok(i),
            None => Err(ValidatorError::InvalidInstructionFormat),
        }
    }

    /// Decodes every remaining byte of the buffer into instructions, or
    /// reports the first decoding error.
    pub fn process_all_instructions(self) -> (r: Result<Vec<Instruction>, ValidatorError>)
        requires
            self.wf(),
        ensures
            match spec_process_all(self.rem()) {
                Ok(list) => r matches Ok(v) && v@ == list,
                Err(e) => r == Err::<Vec<Instruction>, ValidatorError>(e),
            },
    {
        let ghost orig = self.rem();
        let mut v = self;
        let mut instructions: Vec<Instruction> = Vec::new();
        #[verifier::loop_isolation(false)]
        while v.has_next_byte()
            invariant
                v.wf(),
                spec_process_all(orig) == match spec_process_all(v.rem()) {
                    Ok(rest) => Ok::<Seq<Instruction>, ValidatorError>(instructions@ + rest),
                    Err(e) => Err::<Seq<Instruction>, ValidatorError>(e),
                },
            decreases v.rem().len(),
        {
            let ghost pre = v.rem();
            proof {
                lemma_take_ok_bounds(pre);
            }
            match v.take_next_instruction() {
                Ok(i) => {
                    proof {
                        let pair = spec_take_instruction(pre)->Ok_0;
                        assert(spec_process_all(pre) == match spec_process_all(pre.skip(pair.1)) {
                            Ok(rest) => Ok::<Seq<Instruction>, ValidatorError>(seq![pair.0] + rest),
                            Err(e) => Err::<Seq<Instruction>, ValidatorError>(e),
                        });
                        if spec_process_all(v.rem()) is Ok {
                            assert(instructions@ + (seq![i]
                                + spec_process_all(v.rem())->Ok_0) =~= instructions@.push(i)
                                + spec_process_all(v.rem())->Ok_0);
                        }
                    }
                    instructions.push(i);
                },
                Err(e) => {
                    proof {
                        assert(spec_process_all(pre) == Err::<Seq<Instruction>, ValidatorError>(e));
                    }
                    return Err(e);
                },
            }
        }
        proof {
            assert(spec_process_all(v.rem()) == Ok::<Seq<Instruction>, ValidatorError>(
                Seq::empty(),
            ));
            assert(instructions@ + Seq::<Instruction>::empty() =~= instructions@);
        }
        Ok(instructions)
    }
}

/// A decoded instruction occupies at least its opcode byte and at most the
/// bytes that were available.
pub proof fn lemma_take_ok_bounds(s: Seq<u8>)
    ensures
        spec_take_instruction(s) is Ok ==> {
            let pair = spec_take_instruction(s)->Ok_0;
            1 <= pair.1 <= s.len()
        },
{
}

} // verus!
