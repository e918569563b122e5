//! The guarantees the core gives its users, stated over the decoder's
//! specification and the IL transition relation and proved once and for all:
//! stack discipline, the exact machine-level effect of the arithmetic,
//! skip, register-batch and draw opcodes, and the batch-store/batch-load
//! round trip.

use vstd::prelude::*;
use crate::il::{IntermediateInst, IntermediateValue, Register8, ValueTag, stack_tags};
use crate::state::{MachineView, wf, blank_display, xor_line, xor_collision, pixel_toggled};
use crate::semantics::{IlConfig, start_cfg, il_cstep, il_steps, lemma_steps_tags, mask12};
use crate::decode::{decode, lemma_nibbles, store_ops, store_one_ops, load_ops, load_one_ops,
    draw_row_ops, draw_rows_ops, draw_prog};
use crate::typing::lemma_decode_ok;

verus! {

/// Every IL operation but `Rand` and `WaitForKeypress` is deterministic: one
/// configuration steps to at most one configuration.
pub proof fn lemma_cstep_det(i: IntermediateInst, c0: IlConfig, c1: IlConfig, c2: IlConfig)
    requires
        il_cstep(i, c0, c1),
        il_cstep(i, c0, c2),
        !(i is Rand),
        !(i is WaitForKeypress),
    ensures
        c1 == c2,
{
    assert(c1.m == c2.m && c1.s == c2.s && c1.rd == c2.rd);
    assert(c1 =~= c2);
}

/// Stepping through a run of a deterministic operation: if the run's next
/// operation steps to `cnext`, the rest of the run continues from `cnext`.
pub proof fn lemma_steps_at(
    p: Seq<IntermediateInst>,
    k: int,
    ck: IlConfig,
    cend: IlConfig,
    cnext: IlConfig,
)
    requires
        0 <= k < p.len(),
        il_steps(p.skip(k), ck, cend),
        il_cstep(p[k], ck, cnext),
        !(p[k] is Rand),
        !(p[k] is WaitForKeypress),
    ensures
        il_steps(p.skip(k + 1), cnext, cend),
{
    assert(p.skip(k).len() > 0);
    assert(p.skip(k)[0] == p[k]);
    let cm = choose|cm: IlConfig|
        #[trigger] il_cstep(p.skip(k)[0], ck, cm) && il_steps(p.skip(k).skip(1), cm, cend);
    lemma_cstep_det(p[k], ck, cm, cnext);
    assert(p.skip(k).skip(1) =~= p.skip(k + 1));
}

/// A run of the empty micro-program ends where it began.
pub proof fn lemma_steps_end(p: Seq<IntermediateInst>, k: int, ck: IlConfig, cend: IlConfig)
    requires
        k == p.len(),
        il_steps(p.skip(k), ck, cend),
    ensures
        cend == ck,
{
    assert(p.skip(k) =~= Seq::<IntermediateInst>::empty());
}

/// Stack discipline: a run of any decoded micro-program from a fresh operand
/// stack ends with the operand stack empty, whatever the host did.
pub proof fn lemma_stack_discipline(op: u16, m0: MachineView, c1: IlConfig)
    requires
        decode(op) is Some,
        il_steps(decode(op)->0, start_cfg(m0), c1),
    ensures
        c1.s == Seq::<IntermediateValue>::empty(),
{
    lemma_decode_ok(op);
    assert(stack_tags(Seq::<IntermediateValue>::empty()) =~= Seq::<ValueTag>::empty());
    lemma_steps_tags(decode(op)->0, start_cfg(m0), c1);
    assert(stack_tags(c1.s).len() == c1.s.len());
    assert(c1.s =~= Seq::<IntermediateValue>::empty());
}

/// A 16-bit word lies in the 4096-wide range its high nibble names.
pub proof fn lemma_group_range(inst: u16)
    ensures
        4096 * (inst >> 12) <= inst < 4096 * (inst >> 12) + 4096,
{
    assert(4096 * (inst >> 12) <= inst && inst < 4096 * (inst >> 12) + 4096) by (bit_vector);
}

/// The skip-if-equal-immediate law: running the micro-program of `3xkk` and
/// letting the driver advance the program counter moves the PC forward by 4
/// from its pre-fetch value when register x holds kk, and by 2 otherwise,
/// and changes nothing else.
pub proof fn lemma_skip_eq_imm_semantics(inst: u16, m0: MachineView, c1: IlConfig, mfin: MachineView)
    requires
        wf(m0),
        inst >> 12 == 0x3,
        il_steps(decode(inst)->0, start_cfg(m0), c1),
        mfin == (if c1.rd {
            c1.m
        } else {
            MachineView { pc: ((c1.m.pc + 2) % 4096) as u16, ..c1.m }
        }),
    ensures
        ({
            let x = ((inst >> 8) & 0xf) as u8;
            let kk = (inst & 0xff) as u8;
            &&& c1.rd == (m0.regs[x as int] == kk)
            &&& c1.s == Seq::<IntermediateValue>::empty()
            &&& mfin == (MachineView {
                pc: if m0.regs[x as int] == kk {
                    ((m0.pc + 4) % 4096) as u16
                } else {
                    ((m0.pc + 2) % 4096) as u16
                },
                ..m0
            })
        }),
{
    lemma_nibbles(inst);
    lemma_group_range(inst);
    let x = ((inst >> 8) & 0xf) as u8;
    let kk = (inst & 0xff) as u8;
    let p = decode(inst)->0;
    assert(p == seq![
        IntermediateInst::RegRead(Register8::Generic(x)),
        IntermediateInst::PushImm(kk),
        IntermediateInst::Equal,
        IntermediateInst::CondSkipPC,
    ]);
    let c0 = start_cfg(m0);
    assert(p.skip(0) == p);
    let vx = m0.regs[x as int];
    let ca = IlConfig { m: m0, s: c0.s.push(IntermediateValue::Byte(vx)), rd: false };
    assert(il_cstep(p[0], c0, ca));
    lemma_steps_at(p, 0, c0, c1, ca);
    let cb = IlConfig { m: m0, s: ca.s.push(IntermediateValue::Byte(kk)), rd: false };
    assert(il_cstep(p[1], ca, cb));
    lemma_steps_at(p, 1, ca, c1, cb);
    let eq = kk == vx;
    let cc = IlConfig {
        m: m0,
        s: cb.s.take(cb.s.len() - 2).push(IntermediateValue::Bool(eq)),
        rd: false,
    };
    assert(il_cstep(p[2], cb, cc));
    lemma_steps_at(p, 2, cb, c1, cc);
    let cd = IlConfig {
        m: if eq { MachineView { pc: ((m0.pc + 4) % 4096) as u16, ..m0 } } else { m0 },
        s: cc.s.drop_last(),
        rd: eq,
    };
    assert(il_cstep(p[3], cc, cd));
    lemma_steps_at(p, 3, cc, c1, cd);
    lemma_steps_end(p, 4, cd, c1);
    assert(c1.s =~= Seq::<IntermediateValue>::empty());
    assert(mfin =~= (MachineView {
        pc: if m0.regs[x as int] == kk {
            ((m0.pc + 4) % 4096) as u16
        } else {
            ((m0.pc + 2) % 4096) as u16
        },
        ..m0
    }));
}

/// The add-with-carry law: for all registers x, y and byte values a, b held
/// in them, running the micro-program of `8xy4` sets register x to
/// (a + b) mod 256 and register 15 to 1 exactly when a + b is 256 or more,
/// and changes nothing else.
pub proof fn lemma_add_with_carry_semantics(inst: u16, m0: MachineView, c1: IlConfig)
    requires
        wf(m0),
        inst >> 12 == 0x8,
        inst & 0xf == 0x4,
        decode(inst) is Some,
        il_steps(decode(inst)->0, start_cfg(m0), c1),
    ensures
        ({
            let x = ((inst >> 8) & 0xf) as u8;
            let y = ((inst >> 4) & 0xf) as u8;
            let a = m0.regs[x as int];
            let b = m0.regs[y as int];
            &&& x != 15
            &&& c1.rd == false
            &&& c1.s == Seq::<IntermediateValue>::empty()
            &&& c1.m.regs[x as int] == (a + b) % 256
            &&& c1.m.regs[15] == (if a + b >= 256 { 1u8 } else { 0u8 })
            &&& (a + b >= 256 <==> c1.m.regs[15] == 1)
            &&& forall|r: int| 0 <= r < 16 && r != x as int && r != 15
                ==> c1.m.regs[r] == m0.regs[r]
            &&& c1.m == (MachineView { regs: c1.m.regs, ..m0 })
        }),
{
    lemma_nibbles(inst);
    lemma_group_range(inst);
    let x = ((inst >> 8) & 0xf) as u8;
    let y = ((inst >> 4) & 0xf) as u8;
    let a = m0.regs[x as int];
    let b = m0.regs[y as int];
    let p = decode(inst)->0;
    assert(x != 15);
    assert(p == seq![
        IntermediateInst::RegRead(Register8::Generic(x)),
        IntermediateInst::RegRead(Register8::Generic(y)),
        IntermediateInst::AddOv,
        IntermediateInst::RegWrite(Register8::Generic(15)),
        IntermediateInst::RegWrite(Register8::Generic(x)),
    ]);
    let c0 = start_cfg(m0);
    assert(p.skip(0) == p);
    let ca = IlConfig { m: m0, s: c0.s.push(IntermediateValue::Byte(a)), rd: false };
    assert(il_cstep(p[0], c0, ca));
    lemma_steps_at(p, 0, c0, c1, ca);
    let cb = IlConfig { m: m0, s: ca.s.push(IntermediateValue::Byte(b)), rd: false };
    assert(il_cstep(p[1], ca, cb));
    lemma_steps_at(p, 1, ca, c1, cb);
    let sum = ((b + a) % 256) as u8;
    let ov = b + a >= 256;
    let cc = IlConfig {
        m: m0,
        s: cb.s.take(cb.s.len() - 2).push(IntermediateValue::Byte(sum))
            .push(IntermediateValue::Bool(ov)),
        rd: false,
    };
    assert(il_cstep(p[2], cb, cc));
    lemma_steps_at(p, 2, cb, c1, cc);
    let flag: u8 = if ov { 1 } else { 0 };
    let cd = IlConfig {
        m: MachineView { regs: m0.regs.update(15, flag), ..m0 },
        s: cc.s.drop_last(),
        rd: false,
    };
    assert(il_cstep(p[3], cc, cd));
    lemma_steps_at(p, 3, cc, c1, cd);
    let ce = IlConfig {
        m: MachineView { regs: m0.regs.update(15, flag).update(x as int, sum), ..cd.m },
        s: cd.s.drop_last(),
        rd: false,
    };
    assert(il_cstep(p[4], cd, ce));
    lemma_steps_at(p, 4, cd, c1, ce);
    lemma_steps_end(p, 5, ce, c1);
    assert(c1.s =~= Seq::<IntermediateValue>::empty());
    assert(c1.m.regs[15] == flag);
}

/// The binary-coded-decimal law: for every byte value v held in register x,
/// running the micro-program of `Fx33` stores v's hundreds, tens and units
/// digits at I, I+1 and I+2 (addresses truncated to 12 bits), leaves the
/// index register itself unchanged, and changes nothing else.
pub proof fn lemma_bcd_semantics(inst: u16, m0: MachineView, c1: IlConfig)
    requires
        wf(m0),
        inst >> 12 == 0xf,
        inst & 0xff == 0x33,
        il_steps(decode(inst)->0, start_cfg(m0), c1),
    ensures
        ({
            let x = ((inst >> 8) & 0xf) as u8;
            let v = m0.regs[x as int];
            let i0 = m0.index;
            &&& c1.rd == false
            &&& c1.s == Seq::<IntermediateValue>::empty()
            &&& c1.m.mem[i0 as int] == v / 100
            &&& c1.m.mem[((i0 + 1) % 4096) as int] == (v / 10) % 10
            &&& c1.m.mem[((i0 + 2) % 4096) as int] == v % 10
            &&& forall|ad: int| 0 <= ad < 4096 && ad != i0 as int
                && ad != (i0 + 1) % 4096 && ad != (i0 + 2) % 4096
                ==> c1.m.mem[ad] == m0.mem[ad]
            &&& c1.m == (MachineView { mem: c1.m.mem, ..m0 })
        }),
{
    lemma_nibbles(inst);
    lemma_group_range(inst);
    assert((inst >> 12 == 0xf && inst & 0xff == 0x33) ==> ((inst >> 4) & 0xf == 3
        && inst & 0xf == 3)) by (bit_vector);
    let x = ((inst >> 8) & 0xf) as u8;
    let v = m0.regs[x as int];
    let i0 = m0.index;
    let a1 = ((i0 + 1) % 4096) as u16;
    let a2 = ((i0 + 2) % 4096) as u16;
    let p = decode(inst)->0;
    assert(p == crate::decode::bcd_prog(x));
    assert(p == seq![
        IntermediateInst::RegRead(Register8::Generic(x)),
        IntermediateInst::DivMod10,
        IntermediateInst::GetI,
        IntermediateInst::PushImm(2),
        IntermediateInst::AddOffset,
        IntermediateInst::Swap2,
        IntermediateInst::MemWrite,
        IntermediateInst::DivMod10,
        IntermediateInst::GetI,
        IntermediateInst::PushImm(1),
        IntermediateInst::AddOffset,
        IntermediateInst::Swap2,
        IntermediateInst::MemWrite,
        IntermediateInst::GetI,
        IntermediateInst::Swap2,
        IntermediateInst::MemWrite,
    ]);
    let c0 = start_cfg(m0);
    assert(p.skip(0) == p);
    assert(mask12(a2) == a2 && mask12(a1) == a1 && mask12(i0) == i0);
    let c01 = IlConfig { m: (c0.m), s: c0.s.push(IntermediateValue::Byte(v)), rd: false };
    assert(il_cstep(p[0], c0, c01));
    lemma_steps_at(p, 0, c0, c1, c01);
    let c02 = IlConfig { m: (c01.m), s: c01.s.drop_last().push(IntermediateValue::Byte(v / 10)).push(IntermediateValue::Byte(v % 10)), rd: false };
    assert(il_cstep(p[1], c01, c02));
    lemma_steps_at(p, 1, c01, c1, c02);
    let c03 = IlConfig { m: (c02.m), s: c02.s.push(IntermediateValue::Addr(i0)), rd: false };
    assert(il_cstep(p[2], c02, c03));
    lemma_steps_at(p, 2, c02, c1, c03);
    let c04 = IlConfig { m: (c03.m), s: c03.s.push(IntermediateValue::Byte(2)), rd: false };
    assert(il_cstep(p[3], c03, c04));
    lemma_steps_at(p, 3, c03, c1, c04);
    let c05 = IlConfig { m: (c04.m), s: c04.s.take(c04.s.len() - 2).push(IntermediateValue::Addr(a2)), rd: false };
    assert(il_cstep(p[4], c04, c05));
    lemma_steps_at(p, 4, c04, c1, c05);
    let c06 = IlConfig { m: (c05.m), s: c05.s.update(c05.s.len() - 2, c05.s[c05.s.len() - 1]).update(c05.s.len() - 1, c05.s[c05.s.len() - 2]), rd: false };
    assert(il_cstep(p[5], c05, c06));
    lemma_steps_at(p, 5, c05, c1, c06);
    let c07 = IlConfig { m: (MachineView { mem: m0.mem.update(mask12(a2) as int, v % 10), ..m0 }), s: c06.s.take(c06.s.len() - 2), rd: false };
    assert(il_cstep(p[6], c06, c07));
    lemma_steps_at(p, 6, c06, c1, c07);
    let c08 = IlConfig { m: (c07.m), s: c07.s.drop_last().push(IntermediateValue::Byte((v / 10) / 10)).push(IntermediateValue::Byte((v / 10) % 10)), rd: false };
    assert(il_cstep(p[7], c07, c08));
    lemma_steps_at(p, 7, c07, c1, c08);
    let c09 = IlConfig { m: (c08.m), s: c08.s.push(IntermediateValue::Addr(i0)), rd: false };
    assert(il_cstep(p[8], c08, c09));
    lemma_steps_at(p, 8, c08, c1, c09);
    let c10 = IlConfig { m: (c09.m), s: c09.s.push(IntermediateValue::Byte(1)), rd: false };
    assert(il_cstep(p[9], c09, c10));
    lemma_steps_at(p, 9, c09, c1, c10);
    let c11 = IlConfig { m: (c10.m), s: c10.s.take(c10.s.len() - 2).push(IntermediateValue::Addr(a1)), rd: false };
    assert(il_cstep(p[10], c10, c11));
    lemma_steps_at(p, 10, c10, c1, c11);
    let c12 = IlConfig { m: (c11.m), s: c11.s.update(c11.s.len() - 2, c11.s[c11.s.len() - 1]).update(c11.s.len() - 1, c11.s[c11.s.len() - 2]), rd: false };
    assert(il_cstep(p[11], c11, c12));
    lemma_steps_at(p, 11, c11, c1, c12);
    let c13 = IlConfig { m: (MachineView { mem: c12.m.mem.update(mask12(a1) as int, (v / 10) % 10), ..c12.m }), s: c12.s.take(c12.s.len() - 2), rd: false };
    assert(il_cstep(p[12], c12, c13));
    lemma_steps_at(p, 12, c12, c1, c13);
    let c14 = IlConfig { m: (c13.m), s: c13.s.push(IntermediateValue::Addr(i0)), rd: false };
    assert(il_cstep(p[13], c13, c14));
    lemma_steps_at(p, 13, c13, c1, c14);
    let c15 = IlConfig { m: (c14.m), s: c14.s.update(c14.s.len() - 2, c14.s[c14.s.len() - 1]).update(c14.s.len() - 1, c14.s[c14.s.len() - 2]), rd: false };
    assert(il_cstep(p[14], c14, c15));
    lemma_steps_at(p, 14, c14, c1, c15);
    let c16 = IlConfig { m: (MachineView { mem: c15.m.mem.update(mask12(i0) as int, (v / 10) / 10), ..c15.m }), s: c15.s.take(c15.s.len() - 2), rd: false };
    assert(il_cstep(p[15], c15, c16));
    lemma_steps_at(p, 15, c15, c1, c16);
    lemma_steps_end(p, 16, c16, c1);
    assert(c1.s =~= Seq::<IntermediateValue>::empty());
    assert((v / 10) / 10 == v / 100) by (bit_vector);
    assert(i0 as int != (i0 + 1) % 4096 && i0 as int != (i0 + 2) % 4096
        && (i0 + 1) % 4096 != (i0 + 2) % 4096);
}

/// The memory after `Fx55` has stored the first `k` registers: register j
/// went to address I + j, truncated to 12 bits.
pub open spec fn stored_mem(m: MachineView, k: nat) -> Seq<u8>
    decreases k,
{
    if k == 0 {
        m.mem
    } else {
        stored_mem(m, (k - 1) as nat).update(((m.index + (k - 1)) % 4096) as int,
            m.regs[k - 1])
    }
}

/// The registers after `Fx65` has loaded the first `k` registers: register j
/// came from address I + j, truncated to 12 bits.
pub open spec fn loaded_regs(m: MachineView, k: nat) -> Seq<u8>
    decreases k,
{
    if k == 0 {
        m.regs
    } else {
        loaded_regs(m, (k - 1) as nat).update((k - 1) as int,
            m.mem[((m.index + (k - 1)) % 4096) as int])
    }
}

/// `stored_mem` keeps the memory's length.
pub proof fn lemma_stored_len(m: MachineView, k: nat)
    requires
        wf(m),
    ensures
        stored_mem(m, k).len() == m.mem.len(),
    decreases k,
{
    if k == 0 {
        assert(stored_mem(m, 0) == m.mem);
    } else {
        lemma_stored_len(m, (k - 1) as nat);
        assert(stored_mem(m, k) == stored_mem(m, (k - 1) as nat).update(
            ((m.index + (k - 1)) % 4096) as int, m.regs[k - 1]));
    }
}

/// `loaded_regs` keeps the register file's length.
pub proof fn lemma_loaded_len(m: MachineView, k: nat)
    requires
        wf(m),
        k <= 16,
    ensures
        loaded_regs(m, k).len() == m.regs.len(),
    decreases k,
{
    if k == 0 {
        assert(loaded_regs(m, 0) == m.regs);
    } else {
        lemma_loaded_len(m, (k - 1) as nat);
        assert(loaded_regs(m, k) == loaded_regs(m, (k - 1) as nat).update(
            (k - 1) as int, m.mem[((m.index + (k - 1)) % 4096) as int]));
    }
}

/// Effect of one `Fx55` step: register i goes to memory at I, and I advances.
pub proof fn lemma_store_one_effect(i: u8, c0: IlConfig, c1: IlConfig)
    requires
        i < 16,
        wf(c0.m),
        c0.s == Seq::<IntermediateValue>::empty(),
        il_steps(store_one_ops(i), c0, c1),
    ensures
        c1.s == Seq::<IntermediateValue>::empty(),
        c1.rd == c0.rd,
        c1.m == (MachineView {
            mem: c0.m.mem.update(c0.m.index as int, c0.m.regs[i as int]),
            index: ((c0.m.index + 1) % 4096) as u16,
            ..c0.m
        }),
    decreases i,
{
    let p = store_one_ops(i);
    let i0 = c0.m.index;
    let ri = c0.m.regs[i as int];
    assert(p.skip(0) == p);
    assert(mask12(i0) == i0);
    assert(mask12(((i0 + 1) % 4096) as u16) == ((i0 + 1) % 4096) as u16);
    let c01 = IlConfig { m: (c0.m), s: c0.s.push(IntermediateValue::Addr(i0)), rd: c0.rd };
    assert(il_cstep(p[0], c0, c01));
    lemma_steps_at(p, 0, c0, c1, c01);
    let c02 = IlConfig { m: (c01.m), s: c01.s.push(IntermediateValue::Byte(ri)), rd: c01.rd };
    assert(il_cstep(p[1], c01, c02));
    lemma_steps_at(p, 1, c01, c1, c02);
    let c03 = IlConfig { m: (MachineView { mem: c0.m.mem.update(mask12(i0) as int, ri), ..c0.m }), s: c02.s.take(c02.s.len() - 2), rd: c02.rd };
    assert(il_cstep(p[2], c02, c03));
    lemma_steps_at(p, 2, c02, c1, c03);
    let c04 = IlConfig { m: (c03.m), s: c03.s.push(IntermediateValue::Addr(i0)), rd: c03.rd };
    assert(il_cstep(p[3], c03, c04));
    lemma_steps_at(p, 3, c03, c1, c04);
    let c05 = IlConfig { m: (c04.m), s: c04.s.push(IntermediateValue::Byte(1)), rd: c04.rd };
    assert(il_cstep(p[4], c04, c05));
    lemma_steps_at(p, 4, c04, c1, c05);
    let c06 = IlConfig { m: (c05.m), s: c05.s.take(c05.s.len() - 2).push(IntermediateValue::Addr(((i0 + 1) % 4096) as u16)), rd: c05.rd };
    assert(il_cstep(p[5], c05, c06));
    lemma_steps_at(p, 5, c05, c1, c06);
    let c07 = IlConfig { m: (MachineView { index: mask12(((i0 + 1) % 4096) as u16), ..c06.m }), s: c06.s.drop_last(), rd: c06.rd };
    assert(il_cstep(p[6], c06, c07));
    lemma_steps_at(p, 6, c06, c1, c07);
    lemma_steps_end(p, 7, c07, c1);
    assert(c1.s =~= Seq::<IntermediateValue>::empty());
}

/// Effect of one `Fx65` step: register i comes from memory at I, and I
/// advances.
pub proof fn lemma_load_one_effect(i: u8, c0: IlConfig, c1: IlConfig)
    requires
        i < 16,
        wf(c0.m),
        c0.s == Seq::<IntermediateValue>::empty(),
        il_steps(load_one_ops(i), c0, c1),
    ensures
        c1.s == Seq::<IntermediateValue>::empty(),
        c1.rd == c0.rd,
        c1.m == (MachineView {
            regs: c0.m.regs.update(i as int, c0.m.mem[c0.m.index as int]),
            index: ((c0.m.index + 1) % 4096) as u16,
            ..c0.m
        }),
    decreases i,
{
    let p = load_one_ops(i);
    let i0 = c0.m.index;
    assert(p.skip(0) == p);
    assert(mask12(i0) == i0);
    assert(mask12(((i0 + 1) % 4096) as u16) == ((i0 + 1) % 4096) as u16);
    let c01 = IlConfig { m: (c0.m), s: c0.s.push(IntermediateValue::Addr(i0)), rd: c0.rd };
    assert(il_cstep(p[0], c0, c01));
    lemma_steps_at(p, 0, c0, c1, c01);
    let c02 = IlConfig { m: (c01.m), s: c01.s.drop_last().push(IntermediateValue::Byte(c0.m.mem[mask12(i0) as int])), rd: c01.rd };
    assert(il_cstep(p[1], c01, c02));
    lemma_steps_at(p, 1, c01, c1, c02);
    let c03 = IlConfig { m: (MachineView { regs: c0.m.regs.update(i as int, c0.m.mem[mask12(i0) as int]), ..c0.m }), s: c02.s.drop_last(), rd: c02.rd };
    assert(il_cstep(p[2], c02, c03));
    lemma_steps_at(p, 2, c02, c1, c03);
    let c04 = IlConfig { m: (c03.m), s: c03.s.push(IntermediateValue::Addr(i0)), rd: c03.rd };
    assert(il_cstep(p[3], c03, c04));
    lemma_steps_at(p, 3, c03, c1, c04);
    let c05 = IlConfig { m: (c04.m), s: c04.s.push(IntermediateValue::Byte(1)), rd: c04.rd };
    assert(il_cstep(p[4], c04, c05));
    lemma_steps_at(p, 4, c04, c1, c05);
    let c06 = IlConfig { m: (c05.m), s: c05.s.take(c05.s.len() - 2).push(IntermediateValue::Addr(((i0 + 1) % 4096) as u16)), rd: c05.rd };
    assert(il_cstep(p[5], c05, c06));
    lemma_steps_at(p, 5, c05, c1, c06);
    let c07 = IlConfig { m: (MachineView { index: mask12(((i0 + 1) % 4096) as u16), ..c06.m }), s: c06.s.drop_last(), rd: c06.rd };
    assert(il_cstep(p[6], c06, c07));
    lemma_steps_at(p, 6, c06, c1, c07);
    lemma_steps_end(p, 7, c07, c1);
    assert(c1.s =~= Seq::<IntermediateValue>::empty());
}

/// Effect of `Fx55` on the whole machine: registers 0 up to (excluding) `k`
/// stored at I onward, and I left at I + k, truncated to 12 bits.
pub proof fn lemma_store_effect(k: nat, c0: IlConfig, c1: IlConfig)
    requires
        k <= 16,
        wf(c0.m),
        c0.s == Seq::<IntermediateValue>::empty(),
        il_steps(store_ops(k), c0, c1),
    ensures
        c1.s == Seq::<IntermediateValue>::empty(),
        c1.rd == c0.rd,
        c1.m == (MachineView {
            mem: stored_mem(c0.m, k),
            index: ((c0.m.index + k) % 4096) as u16,
            ..c0.m
        }),
    decreases k,
{
    if k == 0 {
        assert(store_ops(0) =~= Seq::<IntermediateInst>::empty());
        lemma_steps_end(store_ops(0), 0, c0, c1);
        assert(((c0.m.index + 0) % 4096) as u16 == c0.m.index);
        assert(c1.m =~= (MachineView {
            mem: stored_mem(c0.m, 0),
            index: ((c0.m.index + 0) % 4096) as u16,
            ..c0.m
        }));
    } else {
        crate::semantics::lemma_il_steps_split_use(store_ops((k - 1) as nat),
            store_one_ops((k - 1) as u8), c0, c1);
        let cm = choose|cm: IlConfig|
            #[trigger] il_steps(store_ops((k - 1) as nat), c0, cm)
                && il_steps(store_one_ops((k - 1) as u8), cm, c1);
        lemma_store_effect((k - 1) as nat, c0, cm);
        lemma_stored_len(c0.m, (k - 1) as nat);
        assert(wf(cm.m));
        lemma_store_one_effect((k - 1) as u8, cm, c1);
        vstd::arithmetic::div_mod::lemma_add_mod_noop(c0.m.index as int + (k as int - 1), 1int, 4096int);
        assert(c1.m.index == ((c0.m.index + k) % 4096) as u16);
        assert(c1.m.mem =~= stored_mem(c0.m, k));
        assert(c1.m =~= (MachineView {
            mem: stored_mem(c0.m, k),
            index: ((c0.m.index + k) % 4096) as u16,
            ..c0.m
        }));
    }
}

/// Effect of `Fx65` on the whole machine: registers 0 up to (excluding) `k`
/// loaded from I onward, and I left at I + k, truncated to 12 bits.
pub proof fn lemma_load_effect(k: nat, c0: IlConfig, c1: IlConfig)
    requires
        k <= 16,
        wf(c0.m),
        c0.s == Seq::<IntermediateValue>::empty(),
        il_steps(load_ops(k), c0, c1),
    ensures
        c1.s == Seq::<IntermediateValue>::empty(),
        c1.rd == c0.rd,
        c1.m == (MachineView {
            regs: loaded_regs(c0.m, k),
            index: ((c0.m.index + k) % 4096) as u16,
            ..c0.m
        }),
    decreases k,
{
    if k == 0 {
        assert(load_ops(0) =~= Seq::<IntermediateInst>::empty());
        lemma_steps_end(load_ops(0), 0, c0, c1);
        assert(((c0.m.index + 0) % 4096) as u16 == c0.m.index);
        assert(c1.m =~= (MachineView {
            regs: loaded_regs(c0.m, 0),
            index: ((c0.m.index + 0) % 4096) as u16,
            ..c0.m
        }));
    } else {
        crate::semantics::lemma_il_steps_split_use(load_ops((k - 1) as nat),
            load_one_ops((k - 1) as u8), c0, c1);
        let cm = choose|cm: IlConfig|
            #[trigger] il_steps(load_ops((k - 1) as nat), c0, cm)
                && il_steps(load_one_ops((k - 1) as u8), cm, c1);
        lemma_load_effect((k - 1) as nat, c0, cm);
        lemma_loaded_len(c0.m, (k - 1) as nat);
        assert(wf(cm.m));
        lemma_load_one_effect((k - 1) as u8, cm, c1);
        vstd::arithmetic::div_mod::lemma_add_mod_noop(c0.m.index as int + (k as int - 1), 1int, 4096int);
        assert(c1.m.index == ((c0.m.index + k) % 4096) as u16);
        assert(c1.m.regs =~= loaded_regs(c0.m, k));
        assert(c1.m =~= (MachineView {
            regs: loaded_regs(c0.m, k),
            index: ((c0.m.index + k) % 4096) as u16,
            ..c0.m
        }));
    }
}

/// Two distinct small offsets from one 12-bit base give distinct truncated
/// addresses.
pub proof fn lemma_offset_distinct(i0: int, r: int, s: int)
    requires
        0 <= i0 < 4096,
        0 <= r < s < 16,
    ensures
        (i0 + r) % 4096 != (i0 + s) % 4096,
{
    if i0 + s < 4096 {
        assert((i0 + r) % 4096 == i0 + r);
        assert((i0 + s) % 4096 == i0 + s);
    } else if i0 + r >= 4096 {
        assert((i0 + r) % 4096 == i0 + r - 4096);
        assert((i0 + s) % 4096 == i0 + s - 4096);
    } else {
        assert((i0 + r) % 4096 == i0 + r);
        assert((i0 + s) % 4096 == i0 + s - 4096);
    }
}

/// Looking a stored register back up: after `Fx55` stored registers 0 up to
/// (excluding) `k`, the byte at address I + r (truncated) is register r.
pub proof fn lemma_stored_at(m: MachineView, k: nat, r: int)
    requires
        wf(m),
        k <= 16,
        0 <= r < k,
    ensures
        stored_mem(m, k)[((m.index + r) % 4096) as int] == m.regs[r],
    decreases k,
{
    lemma_stored_len(m, (k - 1) as nat);
    if r == k - 1 {
    } else {
        lemma_offset_distinct(m.index as int, r, k - 1);
        lemma_stored_at(m, (k - 1) as nat, r);
    }
}

/// The batch round-trip law: `Fx55` followed by `Fx65` with the same x and
/// the same starting index register restores every register to its value
/// before the store, and leaves the stored bytes in memory.
pub proof fn lemma_store_load_round_trip(
    x: u8,
    m0: MachineView,
    c1: IlConfig,
    m1: MachineView,
    c2: IlConfig,
)
    requires
        x < 16,
        wf(m0),
        il_steps(store_ops(x as nat + 1), start_cfg(m0), c1),
        m1 == (MachineView { index: m0.index, ..c1.m }),
        il_steps(load_ops(x as nat + 1), start_cfg(m1), c2),
    ensures
        c2.m.regs == m0.regs,
        c2.m.mem == stored_mem(m0, x as nat + 1),
        c2.m == (MachineView { mem: stored_mem(m0, x as nat + 1), index: c2.m.index, ..m0 }),
{
    let k = x as nat + 1;
    lemma_store_effect(k, start_cfg(m0), c1);
    lemma_stored_len(m0, k);
    assert(wf(m1));
    lemma_load_effect(k, start_cfg(m1), c2);
    lemma_loaded_len(m1, k);
    assert forall|r: int| 0 <= r < 16 implies loaded_regs(m1, k)[r] == m0.regs[r] by {
        lemma_loaded_at(m1, k, r);
        if r < k {
            lemma_stored_at(m0, k, r);
            assert(m1.mem[((m1.index + r) % 4096) as int]
                == stored_mem(m0, k)[((m0.index + r) % 4096) as int]);
        }
    }
    assert(loaded_regs(m1, k) =~= m0.regs);
    assert(c2.m =~= (MachineView {
        mem: stored_mem(m0, x as nat + 1),
        index: c2.m.index,
        ..m0
    }));
}

/// The value of one register after `Fx65` loaded registers 0 up to
/// (excluding) `k`: loaded from memory below `k`, untouched at or above it.
pub proof fn lemma_loaded_at(m: MachineView, k: nat, r: int)
    requires
        wf(m),
        k <= 16,
        0 <= r < 16,
    ensures
        r < k ==> loaded_regs(m, k)[r] == m.mem[((m.index + r) % 4096) as int],
        r >= k ==> loaded_regs(m, k)[r] == m.regs[r],
    decreases k,
{
    if k > 0 {
        lemma_loaded_len(m, (k - 1) as nat);
        lemma_loaded_at(m, (k - 1) as nat, r);
    }
}

/// The display column where a sprite draw starts: register x modulo 64.
pub open spec fn row_x(m: MachineView, x: u8) -> int {
    (m.regs[x as int] % 64) as int
}

/// The display row where sprite row `i` lands: register y plus i, wrapped as
/// a byte, modulo 32.
pub open spec fn row_y(m: MachineView, y: u8, i: int) -> int {
    (((m.regs[y as int] + i) % 256) % 32) as int
}

/// The sprite byte of row `i`: memory at I + i, truncated to 12 bits.
pub open spec fn row_bits(m: MachineView, i: int) -> u8 {
    m.mem[((m.index + i) % 4096) as int]
}

/// The display after the first `k` rows of a `Dxyn` draw.
pub open spec fn drawn_disp(m: MachineView, x: u8, y: u8, k: nat) -> Seq<bool>
    decreases k,
{
    if k == 0 {
        m.disp
    } else {
        xor_line(drawn_disp(m, x, y, (k - 1) as nat), row_x(m, x), row_y(m, y, k - 1),
            row_bits(m, k - 1))
    }
}

/// The accumulated collision flag after the first `k` rows of a `Dxyn` draw.
pub open spec fn drawn_collision(m: MachineView, x: u8, y: u8, k: nat) -> bool
    decreases k,
{
    if k == 0 {
        false
    } else {
        drawn_collision(m, x, y, (k - 1) as nat)
            || xor_collision(drawn_disp(m, x, y, (k - 1) as nat), row_x(m, x),
                row_y(m, y, k - 1), row_bits(m, k - 1))
    }
}

/// `drawn_disp` keeps the display's length.
pub proof fn lemma_drawn_len(m: MachineView, x: u8, y: u8, k: nat)
    ensures
        drawn_disp(m, x, y, k).len() == m.disp.len(),
    decreases k,
{
    if k > 0 {
        lemma_drawn_len(m, x, y, (k - 1) as nat);
    }
}

/// Effect of one sprite row's micro-operations: XOR-composite the row, fold
/// its collision flag into the accumulator, and leave the two flag-value
/// bytes below it alone.
pub proof fn lemma_draw_row_effect(
    x: u8,
    y: u8,
    i: u8,
    b1: u8,
    b0: u8,
    f: bool,
    c0: IlConfig,
    c1: IlConfig,
)
    requires
        x < 16,
        y < 16,
        wf(c0.m),
        c0.s == seq![
            IntermediateValue::Byte(b1),
            IntermediateValue::Byte(b0),
            IntermediateValue::Bool(f),
        ],
        il_steps(draw_row_ops(x, y, i), c0, c1),
    ensures
        c1.rd == c0.rd,
        c1.m == (MachineView {
            disp: xor_line(c0.m.disp, row_x(c0.m, x), row_y(c0.m, y, i as int),
                row_bits(c0.m, i as int)),
            ..c0.m
        }),
        c1.s == seq![
            IntermediateValue::Byte(b1),
            IntermediateValue::Byte(b0),
            IntermediateValue::Bool(f || xor_collision(c0.m.disp, row_x(c0.m, x),
                row_y(c0.m, y, i as int), row_bits(c0.m, i as int))),
        ],
{
    let p = draw_row_ops(x, y, i);
    let rx = c0.m.regs[x as int];
    let ry = c0.m.regs[y as int];
    let i0 = c0.m.index;
    assert(p.skip(0) == p);
    assert(mask12(i0) == i0);
    assert(mask12(((i0 + i) % 4096) as u16) == ((i0 + i) % 4096) as u16);
    if i == 0 {
        let bits = c0.m.mem[mask12(i0) as int];
        assert(bits == row_bits(c0.m, 0));
        assert((ry % 32) as int == row_y(c0.m, y, 0));
        let d01 = IlConfig { m: (c0.m), s: c0.s.push(IntermediateValue::Byte(rx)), rd: c0.rd };
        assert(il_cstep(p[0], c0, d01));
        lemma_steps_at(p, 0, c0, c1, d01);
        let d02 = IlConfig { m: (d01.m), s: d01.s.push(IntermediateValue::Byte(ry)), rd: d01.rd };
        assert(il_cstep(p[1], d01, d02));
        lemma_steps_at(p, 1, d01, c1, d02);
        let d03 = IlConfig { m: (d02.m), s: d02.s.push(IntermediateValue::Addr(i0)), rd: d02.rd };
        assert(il_cstep(p[2], d02, d03));
        lemma_steps_at(p, 2, d02, c1, d03);
        let d04 = IlConfig { m: (d03.m), s: d03.s.drop_last().push(IntermediateValue::Byte(c0.m.mem[mask12(i0) as int])), rd: d03.rd };
        assert(il_cstep(p[3], d03, d04));
        lemma_steps_at(p, 3, d03, c1, d04);
        let d05 = IlConfig { m: (MachineView { disp: xor_line(c0.m.disp, (rx % 64) as int, (ry % 32) as int, bits), ..c0.m }), s: d04.s.take(d04.s.len() - 3).push(IntermediateValue::Bool(xor_collision(c0.m.disp, (rx % 64) as int, (ry % 32) as int, bits))), rd: d04.rd };
        assert(il_cstep(p[4], d04, d05));
        lemma_steps_at(p, 4, d04, c1, d05);
        let d06 = IlConfig { m: (d05.m), s: d05.s.take(d05.s.len() - 2).push(IntermediateValue::Bool(xor_collision(c0.m.disp, (rx % 64) as int, (ry % 32) as int, bits) || f)), rd: d05.rd };
        assert(il_cstep(p[5], d05, d06));
        lemma_steps_at(p, 5, d05, c1, d06);
        lemma_steps_end(p, 6, d06, c1);
        assert(c1.s =~= seq![
            IntermediateValue::Byte(b1),
            IntermediateValue::Byte(b0),
            IntermediateValue::Bool(f || xor_collision(c0.m.disp, row_x(c0.m, x),
                row_y(c0.m, y, i as int), row_bits(c0.m, i as int))),
        ]);
    } else {
        let bits = c0.m.mem[mask12(((i0 + i) % 4096) as u16) as int];
        assert(bits == row_bits(c0.m, i as int));
        assert(((((i + ry) % 256) as u8 % 32)) as int == row_y(c0.m, y, i as int));
        let d01 = IlConfig { m: (c0.m), s: c0.s.push(IntermediateValue::Byte(rx)), rd: c0.rd };
        assert(il_cstep(p[0], c0, d01));
        lemma_steps_at(p, 0, c0, c1, d01);
        let d02 = IlConfig { m: (d01.m), s: d01.s.push(IntermediateValue::Byte(ry)), rd: d01.rd };
        assert(il_cstep(p[1], d01, d02));
        lemma_steps_at(p, 1, d01, c1, d02);
        let d03 = IlConfig { m: (d02.m), s: d02.s.push(IntermediateValue::Byte(i)), rd: d02.rd };
        assert(il_cstep(p[2], d02, d03));
        lemma_steps_at(p, 2, d02, c1, d03);
        let d04 = IlConfig { m: (d03.m), s: d03.s.take(d03.s.len() - 2).push(IntermediateValue::Byte(((i + ry) % 256) as u8)), rd: d03.rd };
        assert(il_cstep(p[3], d03, d04));
        lemma_steps_at(p, 3, d03, c1, d04);
        let d05 = IlConfig { m: (d04.m), s: d04.s.push(IntermediateValue::Addr(i0)), rd: d04.rd };
        assert(il_cstep(p[4], d04, d05));
        lemma_steps_at(p, 4, d04, c1, d05);
        let d06 = IlConfig { m: (d05.m), s: d05.s.push(IntermediateValue::Byte(i)), rd: d05.rd };
        assert(il_cstep(p[5], d05, d06));
        lemma_steps_at(p, 5, d05, c1, d06);
        let d07 = IlConfig { m: (d06.m), s: d06.s.take(d06.s.len() - 2).push(IntermediateValue::Addr(((i0 + i) % 4096) as u16)), rd: d06.rd };
        assert(il_cstep(p[6], d06, d07));
        lemma_steps_at(p, 6, d06, c1, d07);
        let d08 = IlConfig { m: (d07.m), s: d07.s.drop_last().push(IntermediateValue::Byte(c0.m.mem[mask12(((i0 + i) % 4096) as u16) as int])), rd: d07.rd };
        assert(il_cstep(p[7], d07, d08));
        lemma_steps_at(p, 7, d07, c1, d08);
        let d09 = IlConfig { m: (MachineView { disp: xor_line(c0.m.disp, (rx % 64) as int, ((((i + ry) % 256) as u8 % 32)) as int, bits), ..c0.m }), s: d08.s.take(d08.s.len() - 3).push(IntermediateValue::Bool(xor_collision(c0.m.disp, (rx % 64) as int, ((((i + ry) % 256) as u8 % 32)) as int, bits))), rd: d08.rd };
        assert(il_cstep(p[8], d08, d09));
        lemma_steps_at(p, 8, d08, c1, d09);
        let d10 = IlConfig { m: (d09.m), s: d09.s.take(d09.s.len() - 2).push(IntermediateValue::Bool(xor_collision(c0.m.disp, (rx % 64) as int, ((((i + ry) % 256) as u8 % 32)) as int, bits) || f)), rd: d09.rd };
        assert(il_cstep(p[9], d09, d10));
        lemma_steps_at(p, 9, d09, c1, d10);
        lemma_steps_end(p, 10, d10, c1);
        assert(c1.s =~= seq![
            IntermediateValue::Byte(b1),
            IntermediateValue::Byte(b0),
            IntermediateValue::Bool(f || xor_collision(c0.m.disp, row_x(c0.m, x),
                row_y(c0.m, y, i as int), row_bits(c0.m, i as int))),
        ]);
    }
}

/// Effect of the first `k` rows of a draw: the display evolves to
/// `drawn_disp`, the collision accumulator to `drawn_collision`, and nothing
/// else changes.
pub proof fn lemma_draw_rows_effect(
    x: u8,
    y: u8,
    k: nat,
    b1: u8,
    b0: u8,
    f: bool,
    c0: IlConfig,
    c1: IlConfig,
)
    requires
        x < 16,
        y < 16,
        k <= 16,
        wf(c0.m),
        c0.s == seq![
            IntermediateValue::Byte(b1),
            IntermediateValue::Byte(b0),
            IntermediateValue::Bool(f),
        ],
        il_steps(draw_rows_ops(x, y, k), c0, c1),
    ensures
        c1.rd == c0.rd,
        c1.m == (MachineView { disp: drawn_disp(c0.m, x, y, k), ..c0.m }),
        c1.s == seq![
            IntermediateValue::Byte(b1),
            IntermediateValue::Byte(b0),
            IntermediateValue::Bool(f || drawn_collision(c0.m, x, y, k)),
        ],
    decreases k,
{
    if k == 0 {
        assert(draw_rows_ops(x, y, 0) =~= Seq::<IntermediateInst>::empty());
        lemma_steps_end(draw_rows_ops(x, y, 0), 0, c0, c1);
        assert(c1.m =~= (MachineView { disp: drawn_disp(c0.m, x, y, 0), ..c0.m }));
    } else {
        crate::semantics::lemma_il_steps_split_use(draw_rows_ops(x, y, (k - 1) as nat),
            draw_row_ops(x, y, (k - 1) as u8), c0, c1);
        let cm = choose|cm: IlConfig|
            #[trigger] il_steps(draw_rows_ops(x, y, (k - 1) as nat), c0, cm)
                && il_steps(draw_row_ops(x, y, (k - 1) as u8), cm, c1);
        lemma_draw_rows_effect(x, y, (k - 1) as nat, b1, b0, f, c0, cm);
        lemma_drawn_len(c0.m, x, y, (k - 1) as nat);
        assert(wf(cm.m));
        lemma_draw_row_effect(x, y, (k - 1) as u8, b1, b0,
            f || drawn_collision(c0.m, x, y, (k - 1) as nat), cm, c1);
        assert(row_x(cm.m, x) == row_x(c0.m, x));
        assert(row_y(cm.m, y, (k - 1) as u8 as int) == row_y(c0.m, y, k - 1));
        assert(row_bits(cm.m, (k - 1) as u8 as int) == row_bits(c0.m, k - 1));
        assert(c1.m.disp == drawn_disp(c0.m, x, y, k));
        assert(c1.m =~= (MachineView { disp: drawn_disp(c0.m, x, y, k), ..c0.m }));
        assert(c1.s =~= seq![
            IntermediateValue::Byte(b1),
            IntermediateValue::Byte(b0),
            IntermediateValue::Bool(f || drawn_collision(c0.m, x, y, k)),
        ]);
    }
}

/// The draw law: running the whole micro-program of `Dxyn` composites its
/// rows in order onto the display and writes the accumulated collision flag,
/// 1 or 0, into register 15, changing nothing else.
pub proof fn lemma_draw_semantics(inst: u16, m0: MachineView, c1: IlConfig)
    requires
        wf(m0),
        inst >> 12 == 0xd,
        decode(inst) is Some,
        il_steps(decode(inst)->0, start_cfg(m0), c1),
    ensures
        ({
            let x = ((inst >> 8) & 0xf) as u8;
            let y = ((inst >> 4) & 0xf) as u8;
            let rows = if inst & 0xf == 0 { 16 as nat } else { (inst & 0xf) as nat };
            &&& c1.rd == false
            &&& c1.s == Seq::<IntermediateValue>::empty()
            &&& c1.m == (MachineView {
                disp: drawn_disp(m0, x, y, rows),
                regs: m0.regs.update(15, if drawn_collision(m0, x, y, rows) { 1u8 } else { 0u8 }),
                ..m0
            })
        }),
{
    lemma_nibbles(inst);
    lemma_group_range(inst);
    let x = ((inst >> 8) & 0xf) as u8;
    let y = ((inst >> 4) & 0xf) as u8;
    let n4 = inst & 0xf;
    let rows: u8 = if n4 == 0 { 16 } else { n4 as u8 };
    let p = decode(inst)->0;
    assert(p == draw_prog(x, y, rows));
    let prefix = seq![
        IntermediateInst::PushImm(1),
        IntermediateInst::PushImm(0),
        IntermediateInst::False,
    ];
    let suffix = seq![
        IntermediateInst::Select,
        IntermediateInst::RegWrite(Register8::Generic(15)),
    ];
    let mid = draw_rows_ops(x, y, rows as nat);
    assert(p == prefix + mid + suffix);
    let c0 = start_cfg(m0);
    crate::semantics::lemma_il_steps_split_use(prefix + mid, suffix, c0, c1);
    let cm2 = choose|cm2: IlConfig|
        #[trigger] il_steps(prefix + mid, c0, cm2) && il_steps(suffix, cm2, c1);
    crate::semantics::lemma_il_steps_split_use(prefix, mid, c0, cm2);
    let cm1 = choose|cm1: IlConfig|
        #[trigger] il_steps(prefix, c0, cm1) && il_steps(mid, cm1, cm2);
    // the prefix: push the two selectable bytes and a false accumulator
    assert(prefix.skip(0) == prefix);
    let e1 = IlConfig { m: m0, s: c0.s.push(IntermediateValue::Byte(1)), rd: false };
    assert(il_cstep(prefix[0], c0, e1));
    lemma_steps_at(prefix, 0, c0, cm1, e1);
    let e2 = IlConfig { m: m0, s: e1.s.push(IntermediateValue::Byte(0)), rd: false };
    assert(il_cstep(prefix[1], e1, e2));
    lemma_steps_at(prefix, 1, e1, cm1, e2);
    let e3 = IlConfig { m: m0, s: e2.s.push(IntermediateValue::Bool(false)), rd: false };
    assert(il_cstep(prefix[2], e2, e3));
    lemma_steps_at(prefix, 2, e2, cm1, e3);
    lemma_steps_end(prefix, 3, e3, cm1);
    assert(cm1.s =~= seq![
        IntermediateValue::Byte(1),
        IntermediateValue::Byte(0),
        IntermediateValue::Bool(false),
    ]);
    // the rows
    lemma_draw_rows_effect(x, y, rows as nat, 1, 0, false, cm1, cm2);
    let coll = drawn_collision(m0, x, y, rows as nat);
    // the suffix: select 1 or 0 by the accumulator and store it in register 15
    lemma_drawn_len(m0, x, y, rows as nat);
    assert(suffix.skip(0) == suffix);
    let flag: u8 = if coll { 1 } else { 0 };
    let g1 = IlConfig {
        m: cm2.m,
        s: cm2.s.take(cm2.s.len() - 3).push(IntermediateValue::Byte(flag)),
        rd: false,
    };
    assert(il_cstep(suffix[0], cm2, g1));
    lemma_steps_at(suffix, 0, cm2, c1, g1);
    let g2 = IlConfig {
        m: MachineView { regs: m0.regs.update(15, flag), ..cm2.m },
        s: g1.s.drop_last(),
        rd: false,
    };
    assert(il_cstep(suffix[1], g1, g2));
    lemma_steps_at(suffix, 1, g1, c1, g2);
    lemma_steps_end(suffix, 2, g2, c1);
    assert(c1.s =~= Seq::<IntermediateValue>::empty());
    assert(c1.m =~= (MachineView {
        disp: drawn_disp(m0, x, y, rows as nat),
        regs: m0.regs.update(15, if drawn_collision(m0, x, y, rows as nat) { 1u8 } else { 0u8 }),
        ..m0
    }));
}

/// A toggled pixel lies in the 64-pixel band of its row.
pub proof fn lemma_toggle_band(xx: int, yy: int, bits: u8, j: int)
    requires
        pixel_toggled(xx, yy, bits, j),
    ensures
        yy * 64 <= j < yy * 64 + 64,
{
}

/// Two different rows of one sprite land on different display rows: row
/// indices wrap modulo 32, and a sprite has at most 16 rows.
pub proof fn lemma_row_y_distinct(m: MachineView, y: u8, i: int, i2: int)
    requires
        y < 16,
        wf(m),
        0 <= i < i2 < 16,
    ensures
        row_y(m, y, i) != row_y(m, y, i2),
{
    let ry = m.regs[y as int] as int;
    lemma_mod256_mod32(ry + i);
    lemma_mod256_mod32(ry + i2);
    vstd::arithmetic::div_mod::lemma_add_mod_noop(ry, i, 32);
    vstd::arithmetic::div_mod::lemma_add_mod_noop(ry, i2, 32);
    let b = ry % 32;
    assert((ry + i) % 32 == (b + i) % 32);
    assert((ry + i2) % 32 == (b + i2) % 32);
    assert(0 <= b < 32);
    if b + i2 < 32 {
        assert((b + i) % 32 == b + i);
        assert((b + i2) % 32 == b + i2);
    } else if b + i >= 32 {
        assert((b + i) % 32 == b + i - 32);
        assert((b + i2) % 32 == b + i2 - 32);
    } else {
        assert((b + i) % 32 == b + i);
        assert((b + i2) % 32 == b + i2 - 32);
    }
}

/// Reducing a byte-wrapped value modulo 32 ignores the byte wrap, because
/// 256 is a multiple of 32.
pub proof fn lemma_mod256_mod32(a: int)
    requires
        0 <= a < 512,
    ensures
        (a % 256) % 32 == a % 32,
{
    if a < 256 {
        assert(a % 256 == a);
    } else {
        assert(a % 256 == a - 256);
        vstd::arithmetic::div_mod::lemma_mod_multiples_vanish(8, a - 256, 32);
        assert(32 * 8 + (a - 256) == a);
    }
}

/// Rows of a draw outside a pixel's display row leave that pixel alone.
pub proof fn lemma_drawn_frame_range(m: MachineView, x: u8, y: u8, k1: nat, k2: nat, j: int)
    requires
        k1 <= k2 <= 16,
        0 <= j < m.disp.len(),
        forall|i: int| k1 <= i < k2
            ==> !(#[trigger] row_y(m, y, i) * 64 <= j < row_y(m, y, i) * 64 + 64),
    ensures
        drawn_disp(m, x, y, k2)[j] == drawn_disp(m, x, y, k1)[j],
    decreases k2,
{
    if k2 > k1 {
        lemma_drawn_frame_range(m, x, y, k1, (k2 - 1) as nat, j);
        lemma_drawn_len(m, x, y, (k2 - 1) as nat);
        if pixel_toggled(row_x(m, x), row_y(m, y, k2 - 1), row_bits(m, k2 - 1), j) {
            lemma_toggle_band(row_x(m, x), row_y(m, y, k2 - 1), row_bits(m, k2 - 1), j);
        }
    }
}

/// No sprite row of a draw that started on an all-clear display finds a set
/// pixel: each row lands on a display row no earlier row touched.
pub proof fn lemma_no_collision_from_blank(m: MachineView, x: u8, y: u8, k: nat)
    requires
        wf(m),
        x < 16,
        y < 16,
        m.disp == blank_display(),
        k <= 16,
    ensures
        !drawn_collision(m, x, y, k),
    decreases k,
{
    if k > 0 {
        lemma_no_collision_from_blank(m, x, y, (k - 1) as nat);
        lemma_drawn_len(m, x, y, (k - 1) as nat);
        let d = drawn_disp(m, x, y, (k - 1) as nat);
        let rx = row_x(m, x);
        let ry = row_y(m, y, k - 1);
        let bits = row_bits(m, k - 1);
        assert forall|j: int| 0 <= j < d.len() && #[trigger] pixel_toggled(rx, ry, bits, j)
            implies !d[j] by {
            lemma_toggle_band(rx, ry, bits, j);
            assert forall|i: int| 0 <= i < k - 1
                implies !(#[trigger] row_y(m, y, i) * 64 <= j < row_y(m, y, i) * 64 + 64) by {
                lemma_row_y_distinct(m, y, i, k - 1);
            }
            lemma_drawn_frame_range(m, x, y, 0, (k - 1) as nat, j);
            assert(d[j] == m.disp[j]);
        }
        assert(!xor_collision(d, rx, ry, bits));
    }
}

/// The first-draw law: a draw onto a just-cleared display reports no
/// collision, whatever the sprite.
pub proof fn lemma_first_draw_no_collision(inst: u16, m0: MachineView, c1: IlConfig)
    requires
        wf(m0),
        m0.disp == blank_display(),
        inst >> 12 == 0xd,
        decode(inst) is Some,
        il_steps(decode(inst)->0, start_cfg(m0), c1),
    ensures
        c1.m.regs[15] == 0,
{
    lemma_nibbles(inst);
    lemma_draw_semantics(inst, m0, c1);
    let x = ((inst >> 8) & 0xf) as u8;
    let y = ((inst >> 4) & 0xf) as u8;
    let rows = if inst & 0xf == 0 { 16 as nat } else { (inst & 0xf) as nat };
    lemma_group_range(inst);
    lemma_no_collision_from_blank(m0, x, y, rows);
}

/// Whether sprite row `i` of a draw would toggle at least one display pixel.
pub open spec fn row_touches(m: MachineView, x: u8, y: u8, i: int) -> bool {
    exists|j: int| 0 <= j < 2048
        && #[trigger] pixel_toggled(row_x(m, x), row_y(m, y, i), row_bits(m, i), j)
}

/// Whether any of the first `k` sprite rows of a draw would toggle a pixel.
/// An all-zero sprite, or one whose set bits are all clipped at the right
/// display edge, touches nothing.
pub open spec fn draw_touches(m: MachineView, x: u8, y: u8, k: nat) -> bool {
    exists|i: int| 0 <= i < k && #[trigger] row_touches(m, x, y, i)
}

/// Whether pixel `j` lies in the display row of one of the first `r` sprite
/// rows.
pub open spec fn in_band(m: MachineView, y: u8, r: nat, j: int) -> bool {
    exists|i: int| 0 <= i < r && (#[trigger] row_y(m, y, i)) * 64 <= j < row_y(m, y, i) * 64 + 64
}

/// What one pixel of a row's display row holds after a whole draw from an
/// all-clear display: on exactly when the draw toggled it.
pub proof fn lemma_first_draw_pixel(m: MachineView, x: u8, y: u8, k: nat, i: int, j: int)
    requires
        wf(m),
        x < 16,
        y < 16,
        m.disp == blank_display(),
        0 <= i < k <= 16,
        row_y(m, y, i) * 64 <= j < row_y(m, y, i) * 64 + 64,
    ensures
        drawn_disp(m, x, y, k)[j]
            == pixel_toggled(row_x(m, x), row_y(m, y, i), row_bits(m, i), j),
{
    assert(0 <= j < 2048);
    assert forall|i2: int| 0 <= i2 < k && i2 != i
        implies !(#[trigger] row_y(m, y, i2) * 64 <= j < row_y(m, y, i2) * 64 + 64) by {
        if i2 < i {
            lemma_row_y_distinct(m, y, i2, i);
        } else {
            lemma_row_y_distinct(m, y, i, i2);
        }
    }
    lemma_drawn_frame_range(m, x, y, 0, i as nat, j);
    lemma_drawn_len(m, x, y, i as nat);
    lemma_drawn_len(m, x, y, (i + 1) as nat);
    assert(drawn_disp(m, x, y, (i + 1) as nat) == xor_line(drawn_disp(m, x, y, i as nat),
        row_x(m, x), row_y(m, y, i), row_bits(m, i)));
    lemma_drawn_frame_range(m, x, y, (i + 1) as nat, k, j);
}

/// The display and collision flag of a draw repeated over its own result,
/// row by row: each repeated row toggles its pixels back off, and collides
/// exactly when it toggles something.
pub proof fn lemma_second_draw_rows(
    m0: MachineView,
    m1: MachineView,
    x: u8,
    y: u8,
    k: nat,
    r: nat,
)
    requires
        wf(m0),
        wf(m1),
        x < 16,
        y < 16,
        m0.disp == blank_display(),
        m1.disp == drawn_disp(m0, x, y, k),
        m1.regs[x as int] == m0.regs[x as int],
        m1.regs[y as int] == m0.regs[y as int],
        m1.mem == m0.mem,
        m1.index == m0.index,
        r <= k <= 16,
    ensures
        forall|j: int| 0 <= j < 2048 ==> drawn_disp(m1, x, y, r)[j]
            == (if in_band(m1, y, r, j) { false } else { drawn_disp(m0, x, y, k)[j] }),
        drawn_collision(m1, x, y, r) == (exists|i: int| 0 <= i < r
            && #[trigger] row_touches(m0, x, y, i)),
    decreases r,
{
    lemma_drawn_len(m0, x, y, k);
    if r == 0 {
        assert forall|j: int| 0 <= j < 2048 implies !in_band(m1, y, 0, j) by {}
    } else {
        lemma_second_draw_rows(m0, m1, x, y, k, (r - 1) as nat);
        lemma_drawn_len(m1, x, y, (r - 1) as nat);
        let prev = drawn_disp(m1, x, y, (r - 1) as nat);
        let rx = row_x(m1, x);
        let ry = row_y(m1, y, r - 1);
        let bits = row_bits(m1, r - 1);
        assert(rx == row_x(m0, x));
        assert(ry == row_y(m0, y, r - 1));
        assert(bits == row_bits(m0, r - 1));
        assert(drawn_disp(m1, x, y, r) == xor_line(prev, rx, ry, bits));
        // pixels of this row were untouched by the earlier repeated rows
        assert forall|j: int| ry * 64 <= j < ry * 64 + 64 && 0 <= j < 2048
            implies !in_band(m1, y, (r - 1) as nat, j) && prev[j] == drawn_disp(m0, x, y, k)[j] by {
            assert forall|i: int| 0 <= i < r - 1
                implies !(#[trigger] row_y(m1, y, i) * 64 <= j < row_y(m1, y, i) * 64 + 64) by {
                lemma_row_y_distinct(m1, y, i, r - 1);
            }
        }
        // the new display
        assert forall|j: int| 0 <= j < 2048 implies drawn_disp(m1, x, y, r)[j]
            == (if in_band(m1, y, r, j) { false } else { drawn_disp(m0, x, y, k)[j] }) by {
            if pixel_toggled(rx, ry, bits, j) {
                lemma_toggle_band(rx, ry, bits, j);
                lemma_first_draw_pixel(m0, x, y, k, r - 1, j);
                assert(drawn_disp(m0, x, y, k)[j]);
                assert(drawn_disp(m1, x, y, r)[j] == !prev[j]);
                assert(in_band(m1, y, r, j));
            } else {
                assert(drawn_disp(m1, x, y, r)[j] == prev[j]);
                if ry * 64 <= j < ry * 64 + 64 {
                    lemma_first_draw_pixel(m0, x, y, k, r - 1, j);
                    assert(prev[j] == drawn_disp(m0, x, y, k)[j]);
                    assert(!drawn_disp(m0, x, y, k)[j]);
                    assert(in_band(m1, y, r, j));
                } else {
                    assert(in_band(m1, y, r, j) == in_band(m1, y, (r - 1) as nat, j)) by {
                        if in_band(m1, y, r, j) {
                            let i = choose|i: int| 0 <= i < r
                                && (#[trigger] row_y(m1, y, i)) * 64 <= j
                                    < row_y(m1, y, i) * 64 + 64;
                            assert(i != r - 1);
                            assert(in_band(m1, y, (r - 1) as nat, j));
                        }
                        if in_band(m1, y, (r - 1) as nat, j) {
                            let i = choose|i: int| 0 <= i < r - 1
                                && (#[trigger] row_y(m1, y, i)) * 64 <= j
                                    < row_y(m1, y, i) * 64 + 64;
                            assert(in_band(m1, y, r, j));
                        }
                    }
                }
            }
        }
        // the collision flag of the repeated row
        assert(xor_collision(prev, rx, ry, bits) == row_touches(m0, x, y, r - 1)) by {
            if xor_collision(prev, rx, ry, bits) {
                let j = choose|j: int| 0 <= j < prev.len()
                    && #[trigger] pixel_toggled(rx, ry, bits, j) && prev[j];
                assert(pixel_toggled(row_x(m0, x), row_y(m0, y, r - 1), row_bits(m0, r - 1), j));
                assert(row_touches(m0, x, y, r - 1));
            }
            if row_touches(m0, x, y, r - 1) {
                let j = choose|j: int| 0 <= j < 2048 && #[trigger] pixel_toggled(row_x(m0, x),
                    row_y(m0, y, r - 1), row_bits(m0, r - 1), j);
                lemma_toggle_band(rx, ry, bits, j);
                lemma_first_draw_pixel(m0, x, y, k, r - 1, j);
                assert(prev[j]);
                assert(xor_collision(prev, rx, ry, bits));
            }
        }
        assert((exists|i: int| 0 <= i < r && #[trigger] row_touches(m0, x, y, i))
            == (drawn_collision(m1, x, y, (r - 1) as nat)
                || xor_collision(prev, rx, ry, bits))) by {
            if exists|i: int| 0 <= i < r && #[trigger] row_touches(m0, x, y, i) {
                let i = choose|i: int| 0 <= i < r && #[trigger] row_touches(m0, x, y, i);
                if i < r - 1 {
                    assert(exists|i2: int| 0 <= i2 < r - 1 && #[trigger] row_touches(m0, x, y, i2));
                }
            }
            if drawn_collision(m1, x, y, (r - 1) as nat) {
                let i = choose|i: int| 0 <= i < r - 1 && #[trigger] row_touches(m0, x, y, i);
                assert(exists|i2: int| 0 <= i2 < r && #[trigger] row_touches(m0, x, y, i2));
            }
        }
    }
}

/// The redraw law: drawing the same sprite twice at the same position onto a
/// just-cleared display toggles every touched pixel back off, leaving the
/// display all-clear, and the second draw reports a collision whenever the
/// sprite touches any pixel at all.
pub proof fn lemma_redraw_toggles_off(
    inst: u16,
    m0: MachineView,
    c1: IlConfig,
    m1: MachineView,
    c2: IlConfig,
)
    requires
        wf(m0),
        m0.disp == blank_display(),
        inst >> 12 == 0xd,
        decode(inst) is Some,
        il_steps(decode(inst)->0, start_cfg(m0), c1),
        m1 == (MachineView { pc: m1.pc, ..c1.m }),
        m1.pc < 4096,
        il_steps(decode(inst)->0, start_cfg(m1), c2),
        draw_touches(m0, ((inst >> 8) & 0xf) as u8, ((inst >> 4) & 0xf) as u8,
            if inst & 0xf == 0 { 16 as nat } else { (inst & 0xf) as nat }),
    ensures
        c2.m.disp == blank_display(),
        c2.m.regs[15] == 1,
{
    lemma_nibbles(inst);
    lemma_group_range(inst);
    let x = ((inst >> 8) & 0xf) as u8;
    let y = ((inst >> 4) & 0xf) as u8;
    let rows = if inst & 0xf == 0 { 16 as nat } else { (inst & 0xf) as nat };
    assert(x != 15 && y != 15);
    lemma_draw_semantics(inst, m0, c1);
    lemma_drawn_len(m0, x, y, rows);
    assert(wf(m1));
    lemma_draw_semantics(inst, m1, c2);
    lemma_second_draw_rows(m0, m1, x, y, rows, rows);
    lemma_drawn_len(m1, x, y, rows);
    assert forall|j: int| 0 <= j < 2048 implies !drawn_disp(m1, x, y, rows)[j] by {
        if !in_band(m1, y, rows, j) {
            assert forall|i: int| 0 <= i < rows
                implies !(#[trigger] row_y(m0, y, i) * 64 <= j < row_y(m0, y, i) * 64 + 64) by {
                assert(row_y(m0, y, i) == row_y(m1, y, i));
            }
            lemma_drawn_frame_range(m0, x, y, 0, rows, j);
        }
    }
    assert(c2.m.disp =~= blank_display());
    let i = choose|i: int| 0 <= i < rows && #[trigger] row_touches(m0, x, y, i);
    assert(drawn_collision(m1, x, y, rows));
}

} // verus!
