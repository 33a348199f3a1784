//! Machine-checked laws of the execution engine.
//!
//! Each proof function states a property that relates several instructions
//! or calls, over the same `step` semantics that `run_next` is proved to
//! follow.

use vstd::bytes::spec_u64_to_le_bytes;
use vstd::prelude::*;

use crate::float_bits::cmpf_bits;
use crate::float_bits::f64_is_nan_bits;
use crate::instruction::Instruction;
use crate::instruction_arguments::Register;
use crate::vm::machine::rg;
use crate::vm::machine::rix;
use crate::vm::machine::spec_store_byte;
use crate::vm::machine::step;
use crate::vm::machine::MState;

verus! {

/// Pushing a value and popping it back restores the frame pointer and
/// hands the pushed value to the destination register, whenever the stack
/// has room for the 8 pushed bytes.
pub proof fn lemma_push_pop_round_trip(s: MState, src: Register, dst: Register)
    requires
        s.regs.len() == 16,
        s.regs[1] + 8 <= s.stack.len(),
        s.stack.len() <= usize::MAX,
        dst != Register::RFP,
    ensures
        step(s, Instruction::Push(src)).1 is None,
        ({
            let s1 = step(s, Instruction::Push(src)).0;
            let out = step(s1, Instruction::Pop(dst));
            &&& out.1 is None
            &&& rg(out.0, dst) == rg(s, src)
            &&& out.0.regs[1] == s.regs[1]
        }),
{
    vstd::bytes::lemma_auto_spec_u64_to_from_le_bytes();
    let rfp = s.regs[1];
    let value = rg(s, src);
    let bytes = spec_u64_to_le_bytes(value);
    let ins = crate::vm::stack::spec_insert(s.stack, rfp, bytes);
    assert(ins.1);
    let s1 = step(s, Instruction::Push(src)).0;
    assert(s1.stack == ins.0);
    assert(s1.regs[1] == rfp + 8);
    let got = crate::vm::stack::spec_get_top(s1.stack, (rfp + 8) as u64, 8);
    assert(got is Some);
    assert(got.unwrap() =~= bytes);
    assert(rix(dst) != 1);
}

/// Writing a 64-bit word into a block and reading it back at the same
/// offset yields the written value, whenever the write lies strictly
/// inside the block. A write whose end touches the block's last byte is
/// rejected by the store instruction itself.
pub proof fn lemma_store_load_word_round_trip(
    s: MState,
    ra: Register,
    ri: Register,
    rv: Register,
    dst: Register,
)
    requires
        s.regs.len() == 16,
        s.mem.contains_key(rg(s, ra)),
        rg(s, ri) + 8 < s.mem[rg(s, ra)].len(),
    ensures
        step(s, Instruction::Seti(ra, ri, rv)).1 is None,
        ({
            let s1 = step(s, Instruction::Seti(ra, ri, rv)).0;
            let out = step(s1, Instruction::Geti(dst, ra, ri));
            &&& out.1 is None
            &&& rg(out.0, dst) == rg(s, rv)
        }),
{
    vstd::bytes::lemma_auto_spec_u64_to_from_le_bytes();
    let addr = rg(s, ra);
    let off = rg(s, ri);
    let value = rg(s, rv);
    let bytes = spec_u64_to_le_bytes(value);
    let s1 = step(s, Instruction::Seti(ra, ri, rv)).0;
    let block = crate::vm::machine::write_block(s.mem[addr], off, bytes);
    assert(s1.mem == s.mem.insert(addr, block));
    assert(s1.regs == s.regs);
    assert(block.subrange(off as int, off + 8) =~= bytes);
}

/// A cloned block lives at a fresh address, distinct from its source, and
/// holds the same bytes; the source block is untouched. Afterwards a byte
/// store into either block leaves the other unchanged.
pub proof fn lemma_clone_fresh_and_equal(s: MState, dst: Register, src: Register)
    requires
        s.regs.len() == 16,
        s.mem.contains_key(rg(s, src)),
        s.mem.dom().finite(),
        s.mem.dom().len() + s.freed.len() <= u64::MAX,
        forall|k: int| 0 <= k < s.freed.len() ==> !s.mem.contains_key(#[trigger] s.freed[k]),
        forall|a: u64|
            (#[trigger] s.mem.contains_key(a) || s.freed.contains(a)) ==> a < s.mem.dom().len()
                + s.freed.len(),
    ensures
        step(s, Instruction::Clone(dst, src)).1 is None,
        ({
            let out = step(s, Instruction::Clone(dst, src)).0;
            let fresh = rg(out, dst);
            &&& (dst != src ==> fresh != rg(out, src) && out.mem[fresh] == out.mem[rg(out, src)])
            &&& fresh != rg(s, src)
            &&& out.mem.contains_key(fresh)
            &&& out.mem[fresh] == s.mem[rg(s, src)]
            &&& out.mem[rg(s, src)] == s.mem[rg(s, src)]
            &&& (forall|off: u64, v: u64|
                spec_store_byte(out, fresh, off, v).0.mem[rg(s, src)] == s.mem[rg(s, src)])
        }),
{
    let source = rg(s, src);
    let addr = crate::vm::machine::alloc_addr(s);
    assert(!s.mem.contains_key(addr)) by {
        if s.freed.len() > 0 {
            assert(!s.mem.contains_key(s.freed[s.freed.len() - 1]));
        } else {
            if s.mem.contains_key(addr) {
                assert(addr < s.mem.dom().len() + s.freed.len());
            }
        }
    }
    assert(addr != source);
    let out = step(s, Instruction::Clone(dst, src)).0;
    assert(out.mem == s.mem.insert(addr, s.mem[source]));
    assert forall|off: u64, v: u64|
        spec_store_byte(out, addr, off, v).0.mem[source] == s.mem[source] by {
        let stored = spec_store_byte(out, addr, off, v).0;
        assert(stored.mem[source] == out.mem[source]);
    }
}

/// Exchanging the blocks at two live addresses twice restores the heap.
pub proof fn lemma_swap_involution(s: MState, a: crate::instruction_arguments::Address, b: crate::instruction_arguments::Address)
    requires
        s.mem.contains_key(a.bits),
        s.mem.contains_key(b.bits),
    ensures
        step(s, Instruction::Swpa(a, b)).1 is None,
        ({
            let s1 = step(s, Instruction::Swpa(a, b)).0;
            let out = step(s1, Instruction::Swpa(a, b));
            &&& out.1 is None
            &&& out.0.mem == s.mem
        }),
{
    let s1 = step(s, Instruction::Swpa(a, b)).0;
    let s2 = step(s1, Instruction::Swpa(a, b)).0;
    assert(s2.mem =~= s.mem);
}

/// An integer comparison sets exactly one of the three condition bits, and
/// from the flags it leaves, exactly one of the equal, greater-than and
/// less-than branches is taken.
pub proof fn lemma_cmp_one_flag(
    s: MState,
    r: Register,
    r1: Register,
    a: crate::instruction_arguments::Address,
)
    requires
        s.regs.len() == 16,
    ensures
        ({
            let f = step(s, Instruction::Cmp(r, r1)).0.regs[3];
            let eq = f & 0b001 == 1;
            let lt = (f & 0b010) >> 1 == 1;
            let gt = (f & 0b100) >> 2 == 1;
            &&& (eq ==> !lt && !gt)
            &&& (lt ==> !eq && !gt)
            &&& (gt ==> !eq && !lt)
            &&& (eq || lt || gt)
            &&& eq == (rg(s, r) == rg(s, r1))
            &&& lt == (rg(s, r) < rg(s, r1))
            &&& gt == (rg(s, r) > rg(s, r1))
        }),
        ({
            let s1 = step(s, Instruction::Cmp(r, r1)).0;
            let jeq_taken = step(s1, Instruction::Jeq(a)).0.ip == (a.bits as usize) as int;
            let jlt_taken = step(s1, Instruction::Jlt(a)).0.ip == (a.bits as usize) as int;
            let jgt_taken = step(s1, Instruction::Jgt(a)).0.ip == (a.bits as usize) as int;
            (a.bits as usize) as int != s1.ip + 1 ==> {
                &&& (jeq_taken <==> rg(s, r) == rg(s, r1))
                &&& (jlt_taken <==> rg(s, r) < rg(s, r1))
                &&& (jgt_taken <==> rg(s, r) > rg(s, r1))
            }
        }),
{
    let f0 = s.regs[3];
    let v = crate::vm::machine::cmp_bits_u64(rg(s, r), rg(s, r1));
    let f = (f0 & 0xFFFFFFFFFFFFFFF8) | v;
    assert(v == 1 || v == 2 || v == 4);
    assert(v == 1 ==> f & 0b001 == 1 && (f & 0b010) >> 1 == 0 && (f & 0b100) >> 2 == 0)
        by (bit_vector)
        requires
            f == (f0 & 0xFFFFFFFFFFFFFFF8) | v,
    ;
    assert(v == 2 ==> f & 0b001 == 0 && (f & 0b010) >> 1 == 1 && (f & 0b100) >> 2 == 0)
        by (bit_vector)
        requires
            f == (f0 & 0xFFFFFFFFFFFFFFF8) | v,
    ;
    assert(v == 4 ==> f & 0b001 == 0 && (f & 0b010) >> 1 == 0 && (f & 0b100) >> 2 == 1)
        by (bit_vector)
        requires
            f == (f0 & 0xFFFFFFFFFFFFFFF8) | v,
    ;
}

/// A signed comparison likewise sets exactly one condition bit, the one
/// the signed order picks.
pub proof fn lemma_cmpi_one_flag(s: MState, r: Register, r1: Register)
    requires
        s.regs.len() == 16,
    ensures
        ({
            let f = step(s, Instruction::Cmpi(r, r1)).0.regs[3];
            let eq = f & 0b001 == 1;
            let lt = (f & 0b010) >> 1 == 1;
            let gt = (f & 0b100) >> 2 == 1;
            &&& (eq ==> !lt && !gt)
            &&& (lt ==> !eq && !gt)
            &&& (gt ==> !eq && !lt)
            &&& (eq || lt || gt)
            &&& eq == (rg(s, r) as i64 == rg(s, r1) as i64)
            &&& lt == ((rg(s, r) as i64) < (rg(s, r1) as i64))
            &&& gt == ((rg(s, r) as i64) > (rg(s, r1) as i64))
        }),
{
    let f0 = s.regs[3];
    let v = crate::vm::machine::cmp_bits_i64(rg(s, r) as i64, rg(s, r1) as i64);
    let f = (f0 & 0xFFFFFFFFFFFFFFF8) | v;
    assert(v == 1 || v == 2 || v == 4);
    assert(v == 1 ==> f & 0b001 == 1 && (f & 0b010) >> 1 == 0 && (f & 0b100) >> 2 == 0)
        by (bit_vector)
        requires
            f == (f0 & 0xFFFFFFFFFFFFFFF8) | v,
    ;
    assert(v == 2 ==> f & 0b001 == 0 && (f & 0b010) >> 1 == 1 && (f & 0b100) >> 2 == 0)
        by (bit_vector)
        requires
            f == (f0 & 0xFFFFFFFFFFFFFFF8) | v,
    ;
    assert(v == 4 ==> f & 0b001 == 0 && (f & 0b010) >> 1 == 0 && (f & 0b100) >> 2 == 1)
        by (bit_vector)
        requires
            f == (f0 & 0xFFFFFFFFFFFFFFF8) | v,
    ;
}

/// A float comparison with a NaN operand clears all three condition bits
/// and preserves the rest of the flags register.
pub proof fn lemma_cmpf_nan_clears_flags(s: MState, r: Register, r1: Register)
    requires
        s.regs.len() == 16,
        f64_is_nan_bits(rg(s, r)) || f64_is_nan_bits(rg(s, r1)),
    ensures
        ({
            let f = step(s, Instruction::Cmpf(r, r1)).0.regs[3];
            &&& f & 0b111 == 0
            &&& f == s.regs[3] & 0xFFFFFFFFFFFFFFF8
        }),
{
    let f0 = s.regs[3];
    assert(cmpf_bits(rg(s, r), rg(s, r1)) == 0);
    assert(((f0 & 0xFFFFFFFFFFFFFFF8) | 0) & 0b111 == 0) by (bit_vector);
    assert((f0 & 0xFFFFFFFFFFFFFFF8) | 0 == f0 & 0xFFFFFFFFFFFFFFF8) by (bit_vector);
}

/// A call followed by a return restores every register — the frame and
/// stack pointers included — and leaves the instruction pointer at the
/// instruction after the call, whenever the stack has room for the three
/// pushed words.
pub proof fn lemma_call_ret_round_trip(s: MState, a: crate::instruction_arguments::Address)
    requires
        s.regs.len() == 16,
        s.regs[1] + 24 <= s.stack.len(),
        s.stack.len() <= usize::MAX,
        0 <= s.ip,
        s.ip + 1 <= usize::MAX,
    ensures
        step(s, Instruction::Call(a)).1 is None,
        ({
            let s1 = step(s, Instruction::Call(a)).0;
            let out = step(s1, Instruction::Ret);
            &&& s1.ip == (a.bits as usize) as int
            &&& s1.regs[1] == s.regs[1] + 24
            &&& s1.regs[0] == s.regs[1] + 24
            &&& out.1 is None
            &&& out.0.regs =~= s.regs
            &&& out.0.ip == s.ip + 1
        }),
{
    vstd::bytes::lemma_auto_spec_u64_to_from_le_bytes();
    let rfp = s.regs[1];
    let rsp = s.regs[0];
    let ipv = (s.ip + 1) as u64;
    let b1 = spec_u64_to_le_bytes(rfp);
    let b2 = spec_u64_to_le_bytes(rsp);
    let b3 = spec_u64_to_le_bytes(ipv);

    let p1 = crate::vm::machine::spec_push(s, rfp);
    assert(crate::vm::stack::spec_insert(s.stack, rfp, b1).1);
    assert(p1.1 is None);
    let t1 = p1.0;
    assert(t1.regs[1] == rfp + 8);

    let p2 = crate::vm::machine::spec_push(t1, t1.regs[0]);
    assert(crate::vm::stack::spec_insert(t1.stack, (rfp + 8) as u64, b2).1);
    assert(p2.1 is None);
    let t2 = p2.0;
    assert(t2.regs[1] == rfp + 16);

    let p3 = crate::vm::machine::spec_push(t2, (s.ip + 1) as u64);
    assert(crate::vm::stack::spec_insert(t2.stack, (rfp + 16) as u64, b3).1);
    assert(p3.1 is None);
    let t3 = p3.0;
    assert(t3.regs[1] == rfp + 24);

    let s1 = step(s, Instruction::Call(a)).0;
    assert(s1.stack == t3.stack);
    assert(s1.regs =~= t3.regs.update(0, t3.regs[1]));
    assert(s1.regs[1] == rfp + 24);

    // the three pushed words sit in disjoint 8-byte windows
    assert(s1.stack.subrange(rfp + 16, rfp + 24) =~= b3);
    assert(s1.stack.subrange(rfp + 8, rfp + 16) =~= b2);
    assert(s1.stack.subrange(rfp as int, rfp + 8) =~= b1);

    let q1 = crate::vm::machine::spec_pop(s1);
    assert(crate::vm::stack::spec_get_top_u64(s1.stack, (rfp + 24) as u64) == Some(ipv));
    assert(q1.1 is None && q1.2 == ipv);
    let u1 = q1.0;
    assert(u1.regs[1] == rfp + 16);

    let q2 = crate::vm::machine::spec_pop(u1);
    assert(crate::vm::stack::spec_get_top_u64(u1.stack, (rfp + 16) as u64) == Some(rsp));
    assert(q2.1 is None && q2.2 == rsp);
    let u2 = q2.0;
    assert(u2.regs[1] == rfp + 8);

    let q3 = crate::vm::machine::spec_pop(u2);
    assert(crate::vm::stack::spec_get_top_u64(u2.stack, (rfp + 8) as u64) == Some(rfp));
    assert(q3.1 is None && q3.2 == rfp);
    let u3 = q3.0;

    let out = step(s1, Instruction::Ret);
    assert(out.1 is None);
    assert(out.0.regs =~= u3.regs.update(0, rsp).update(1, rfp));
    assert(out.0.regs =~= s.regs);
    assert(out.0.ip == (ipv as usize) as int);
    assert((ipv as usize) as int == s.ip + 1);
}

/// Decoding the encoding of one instruction, with anything after it, gives
/// the instruction back and consumes exactly its bytes.
pub proof fn lemma_take_encoded(i: Instruction, rest: Seq<u8>)
    ensures
        crate::validator::spec_take_instruction(crate::instruction::spec_encode(i) + rest) == Ok::<
            (Instruction, int),
            crate::error::ValidatorError,
        >((i, crate::instruction::spec_encode(i).len() as int)),
{
    vstd::bytes::lemma_auto_spec_u64_to_from_le_bytes();
    crate::instruction::lemma_operand_counts(i);
    crate::instruction::lemma_new_inverse(i);
    let enc = crate::instruction::spec_encode(i);
    let s = enc + rest;
    let op = i.opcode();
    assert(s[0] == op);
    let imms = i.imms();
    let addrs = i.addrs();
    let regs = i.regs();
    let ei = crate::instruction::spec_encode_imms(imms);
    let ea = crate::instruction::spec_encode_addrs(addrs);
    let er = crate::instruction::spec_encode_regs(regs);
    assert(ei.len() == 8 * imms.len() && (forall|k: int|
        0 <= k < imms.len() ==> #[trigger] ei.subrange(8 * k, 8 * k + 8)
            == vstd::bytes::spec_u64_to_le_bytes(imms[k].bits))) by {
        crate::instruction::lemma_encode_imms_props(imms);
    }
    assert(ea.len() == 8 * addrs.len() && (forall|k: int|
        0 <= k < addrs.len() ==> #[trigger] ea.subrange(8 * k, 8 * k + 8)
            == vstd::bytes::spec_u64_to_le_bytes(addrs[k].bits))) by {
        crate::instruction::lemma_encode_addrs_props(addrs);
    }
    crate::instruction::lemma_encode_regs_bytes(regs);
    let ic = imms.len() as int;
    let ac = addrs.len() as int;
    let rc = regs.len() as int;
    let total = 1 + 8 * ic + 8 * ac + (rc + 1) / 2;
    assert(enc.len() == total);
    assert(s.len() >= total);
    let got_imms = Seq::new(
        ic as nat,
        |k: int|
            crate::instruction_arguments::Immediate {
                bits: vstd::bytes::spec_u64_from_le_bytes(s.subrange(1 + 8 * k, 9 + 8 * k)),
            },
    );
    assert forall|k: int| 0 <= k < ic implies got_imms[k] == imms[k] by {
        assert(s.subrange(1 + 8 * k, 9 + 8 * k) =~= ei.subrange(8 * k, 8 * k + 8));
    }
    assert(got_imms =~= imms);
    let got_addrs = Seq::new(
        ac as nat,
        |k: int|
            crate::instruction_arguments::Address {
                bits: vstd::bytes::spec_u64_from_le_bytes(
                    s.subrange(1 + 8 * ic + 8 * k, 9 + 8 * ic + 8 * k),
                ),
            },
    );
    assert forall|k: int| 0 <= k < ac implies got_addrs[k] == addrs[k] by {
        assert(s.subrange(1 + 8 * ic + 8 * k, 9 + 8 * ic + 8 * k) =~= ea.subrange(
            8 * k,
            8 * k + 8,
        ));
    }
    assert(got_addrs =~= addrs);
    let base = 1 + 8 * ic + 8 * ac;
    let got_regs = Seq::new(rc as nat, |k: int| crate::validator::spec_reg_at(s, base, k));
    assert forall|k: int| 0 <= k < rc implies got_regs[k] == regs[k] by {
        assert(s[base + k / 2] == er[k / 2]);
        crate::instruction::lemma_encode_regs_extract(regs, k);
    }
    assert(got_regs =~= regs);
}

/// Decoding a freshly encoded instruction list yields an equal list.
pub proof fn lemma_decode_encode_round_trip(l: Seq<Instruction>)
    ensures
        crate::validator::spec_process_all(crate::instruction::spec_encode_list(l)) == Ok::<
            Seq<Instruction>,
            crate::error::ValidatorError,
        >(l),
    decreases l.len(),
{
    let enc = crate::instruction::spec_encode_list(l);
    if l.len() == 0 {
        assert(enc =~= Seq::<u8>::empty());
        assert(l =~= Seq::<Instruction>::empty());
        assert(crate::validator::spec_process_all(enc) == Ok::<
            Seq<Instruction>,
            crate::error::ValidatorError,
        >(Seq::empty()));
    } else {
        let e0 = crate::instruction::spec_encode(l[0]);
        let erest = crate::instruction::spec_encode_list(l.skip(1));
        assert(enc == e0 + erest);
        lemma_take_encoded(l[0], erest);
        assert(e0.len() >= 1) by {
            assert(e0[0] == l[0].opcode());
        }
        assert(enc.skip(e0.len() as int) =~= erest);
        lemma_decode_encode_round_trip(l.skip(1));
        assert(enc.len() > 0);
        assert(crate::validator::spec_take_instruction(enc) == Ok::<
            (Instruction, int),
            crate::error::ValidatorError,
        >((l[0], e0.len() as int)));
        assert(crate::validator::spec_process_all(erest) == Ok::<
            Seq<Instruction>,
            crate::error::ValidatorError,
        >(l.skip(1)));
        assert(crate::validator::spec_process_all(enc) == Ok::<
            Seq<Instruction>,
            crate::error::ValidatorError,
        >(seq![l[0]] + l.skip(1)));
        assert(seq![l[0]] + l.skip(1) =~= l);
    }
}

} // verus!
