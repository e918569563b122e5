//! The meaning of the intermediate language: a transition relation over the
//! machine view and the operand stack, one step per IL operation, and its
//! closure over whole micro-programs. The execution engine's contracts are
//! stated against these relations.

use vstd::prelude::*;
use crate::il::{IntermediateInst, IntermediateValue, Register8, ValueTag, tag_of, stack_tags,
    step_typed, prog_typed};
use crate::state::{MachineView, blank_display, xor_line, xor_collision, key_down, glyph_addr};

verus! {

/// The byte held by a stack entry; meaningful only under the Byte tag.
pub open spec fn byte_val(v: IntermediateValue) -> u8 {
    match v {
        IntermediateValue::Byte(b) => b,
        _ => 0,
    }
}

/// The address held by a stack entry; meaningful only under the Addr tag.
pub open spec fn addr_val(v: IntermediateValue) -> u16 {
    match v {
        IntermediateValue::Addr(a) => a,
        _ => 0,
    }
}

/// The boolean held by a stack entry; meaningful only under the Bool tag.
pub open spec fn bool_val(v: IntermediateValue) -> bool {
    match v {
        IntermediateValue::Bool(b) => b,
        _ => false,
    }
}

/// The byte a `RegWrite` stores: a byte as itself, a boolean as 1 or 0.
pub open spec fn reg_write_val(v: IntermediateValue) -> u8 {
    match v {
        IntermediateValue::Byte(b) => b,
        IntermediateValue::Bool(b) => if b { 1 } else { 0 },
        _ => 0,
    }
}

/// A 16-bit value truncated to a 12-bit address.
pub open spec fn mask12(a: u16) -> u16 {
    (a % 4096) as u16
}

/// Whether one IL operation redirects the program counter: jump, call,
/// return, and a conditional skip whose popped boolean is true.
pub open spec fn step_redirects(i: IntermediateInst, s0: Seq<IntermediateValue>) -> bool {
    match i {
        IntermediateInst::SetPC => true,
        IntermediateInst::OffsetPC => true,
        IntermediateInst::Call => true,
        IntermediateInst::Ret => true,
        IntermediateInst::CondSkipPC => bool_val(s0[s0.len() - 1]),
        _ => false,
    }
}

/// The transition relation of one IL operation: `il_step(i, m0, s0, m1, s1)`
/// holds when executing `i` in machine state `m0` with operand stack `s0`
/// may yield machine state `m1` and stack `s1`. The relation is a function
/// of its inputs for every operation except `Rand` and `WaitForKeypress`,
/// whose results the host chooses. It is meaningful only when `i` types
/// against the tags of `s0`; `Illegal` steps to nothing.
pub open spec fn il_step(
    i: IntermediateInst,
    m0: MachineView,
    s0: Seq<IntermediateValue>,
    m1: MachineView,
    s1: Seq<IntermediateValue>,
) -> bool {
    match i {
        IntermediateInst::Illegal => false,
        IntermediateInst::ClearScreen => {
            &&& m1 == (MachineView { disp: blank_display(), ..m0 })
            &&& s1 == s0
        },
        IntermediateInst::WriteScreen => {
            let bits = byte_val(s0[s0.len() - 1]);
            let y = byte_val(s0[s0.len() - 2]);
            let x = byte_val(s0[s0.len() - 3]);
            &&& m1 == (MachineView {
                disp: xor_line(m0.disp, (x % 64) as int, (y % 32) as int, bits),
                ..m0
            })
            &&& s1 == s0.take(s0.len() - 3).push(IntermediateValue::Bool(
                xor_collision(m0.disp, (x % 64) as int, (y % 32) as int, bits)))
        },
        IntermediateInst::WaitForKeypress => {
            &&& m1 == (MachineView { keys: m1.keys, ..m0 })
            &&& m1.keys.len() == 16
            &&& exists|k: u8| k < 16 && s1 == s0.push(IntermediateValue::Byte(k))
        },
        IntermediateInst::KeyPressed => {
            let k = byte_val(s0[s0.len() - 1]);
            &&& m1 == m0
            &&& s1 == s0.drop_last().push(IntermediateValue::Bool(key_down(m0, k)))
        },
        IntermediateInst::HexCharAddr => {
            let c = byte_val(s0[s0.len() - 1]);
            &&& m1 == m0
            &&& s1 == s0.drop_last().push(IntermediateValue::Addr(glyph_addr(m0, c)))
        },
        IntermediateInst::RegRead(r) => {
            let v = match r {
                Register8::Generic(x) => m0.regs[x as int],
                Register8::DelayTimer => m0.delay,
                Register8::SoundTimer => m0.sound,
            };
            &&& m1 == m0
            &&& s1 == s0.push(IntermediateValue::Byte(v))
        },
        IntermediateInst::RegWrite(r) => {
            let v = reg_write_val(s0[s0.len() - 1]);
            &&& m1 == (match r {
                Register8::Generic(x) => MachineView { regs: m0.regs.update(x as int, v), ..m0 },
                Register8::DelayTimer => MachineView { delay: v, ..m0 },
                Register8::SoundTimer => MachineView { sound: v, ..m0 },
            })
            &&& s1 == s0.drop_last()
        },
        IntermediateInst::MemRead => {
            let a = addr_val(s0[s0.len() - 1]);
            &&& m1 == m0
            &&& s1 == s0.drop_last().push(IntermediateValue::Byte(m0.mem[mask12(a) as int]))
        },
        IntermediateInst::MemWrite => {
            let v = byte_val(s0[s0.len() - 1]);
            let a = addr_val(s0[s0.len() - 2]);
            &&& m1 == (MachineView { mem: m0.mem.update(mask12(a) as int, v), ..m0 })
            &&& s1 == s0.take(s0.len() - 2)
        },
        IntermediateInst::GetI => {
            &&& m1 == m0
            &&& s1 == s0.push(IntermediateValue::Addr(m0.index))
        },
        IntermediateInst::SetI => {
            &&& m1 == (MachineView { index: mask12(addr_val(s0[s0.len() - 1])), ..m0 })
            &&& s1 == s0.drop_last()
        },
        IntermediateInst::SetPC => {
            &&& m1 == (MachineView { pc: mask12(addr_val(s0[s0.len() - 1])), ..m0 })
            &&& s1 == s0.drop_last()
        },
        IntermediateInst::OffsetPC => {
            let a = addr_val(s0[s0.len() - 1]);
            &&& m1 == (MachineView { pc: ((a + m0.regs[0]) % 4096) as u16, ..m0 })
            &&& s1 == s0.drop_last()
        },
        IntermediateInst::CondSkipPC => {
            let b = bool_val(s0[s0.len() - 1]);
            &&& m1 == (if b { MachineView { pc: ((m0.pc + 4) % 4096) as u16, ..m0 } } else { m0 })
            &&& s1 == s0.drop_last()
        },
        IntermediateInst::Call => {
            &&& m1 == (MachineView {
                pc: mask12(addr_val(s0[s0.len() - 1])),
                ret_stack: m0.ret_stack.push(((m0.pc + 2) % 4096) as u16),
                ..m0
            })
            &&& s1 == s0.drop_last()
        },
        IntermediateInst::Ret => {
            &&& m0.ret_stack.len() > 0
            &&& m1 == (MachineView {
                pc: mask12(m0.ret_stack.last()),
                ret_stack: m0.ret_stack.drop_last(),
                ..m0
            })
            &&& s1 == s0
        },
        IntermediateInst::PushImm(v) => {
            &&& m1 == m0
            &&& s1 == s0.push(IntermediateValue::Byte(v))
        },
        IntermediateInst::PushImm16(v) => {
            &&& m1 == m0
            &&& s1 == s0.push(IntermediateValue::Addr(v))
        },
        IntermediateInst::Swap2 => {
            &&& m1 == m0
            &&& s1 == s0.update(s0.len() - 2, s0[s0.len() - 1]).update(s0.len() - 1, s0[s0.len() - 2])
        },
        IntermediateInst::PopIgnore => {
            &&& m1 == m0
            &&& s1 == s0.drop_last()
        },
        IntermediateInst::Rand => {
            &&& m1 == m0
            &&& exists|b: u8| s1 == s0.push(IntermediateValue::Byte(b))
        },
        IntermediateInst::True => {
            &&& m1 == m0
            &&& s1 == s0.push(IntermediateValue::Bool(true))
        },
        IntermediateInst::False => {
            &&& m1 == m0
            &&& s1 == s0.push(IntermediateValue::Bool(false))
        },
        IntermediateInst::Equal => {
            let a = byte_val(s0[s0.len() - 1]);
            let b = byte_val(s0[s0.len() - 2]);
            &&& m1 == m0
            &&& s1 == s0.take(s0.len() - 2).push(IntermediateValue::Bool(a == b))
        },
        IntermediateInst::BoolNot => {
            let b = bool_val(s0[s0.len() - 1]);
            &&& m1 == m0
            &&& s1 == s0.drop_last().push(IntermediateValue::Bool(!b))
        },
        IntermediateInst::BoolOr => {
            let a = bool_val(s0[s0.len() - 1]);
            let b = bool_val(s0[s0.len() - 2]);
            &&& m1 == m0
            &&& s1 == s0.take(s0.len() - 2).push(IntermediateValue::Bool(a || b))
        },
        IntermediateInst::Select => {
            let sel = bool_val(s0[s0.len() - 1]);
            let b = byte_val(s0[s0.len() - 2]);
            let a = byte_val(s0[s0.len() - 3]);
            &&& m1 == m0
            &&& s1 == s0.take(s0.len() - 3).push(IntermediateValue::Byte(if sel { a } else { b }))
        },
        IntermediateInst::Add => {
            let a = byte_val(s0[s0.len() - 1]);
            let b = byte_val(s0[s0.len() - 2]);
            &&& m1 == m0
            &&& s1 == s0.take(s0.len() - 2).push(IntermediateValue::Byte(((a + b) % 256) as u8))
        },
        IntermediateInst::AddOv => {
            let a = byte_val(s0[s0.len() - 1]);
            let b = byte_val(s0[s0.len() - 2]);
            &&& m1 == m0
            &&& s1 == s0.take(s0.len() - 2).push(IntermediateValue::Byte(((a + b) % 256) as u8))
                .push(IntermediateValue::Bool(a + b >= 256))
        },
        IntermediateInst::BOr => {
            let a = byte_val(s0[s0.len() - 1]);
            let b = byte_val(s0[s0.len() - 2]);
            &&& m1 == m0
            &&& s1 == s0.take(s0.len() - 2).push(IntermediateValue::Byte(a | b))
        },
        IntermediateInst::BAnd => {
            let a = byte_val(s0[s0.len() - 1]);
            let b = byte_val(s0[s0.len() - 2]);
            &&& m1 == m0
            &&& s1 == s0.take(s0.len() - 2).push(IntermediateValue::Byte(a & b))
        },
        IntermediateInst::BXor => {
            let a = byte_val(s0[s0.len() - 1]);
            let b = byte_val(s0[s0.len() - 2]);
            &&& m1 == m0
            &&& s1 == s0.take(s0.len() - 2).push(IntermediateValue::Byte(a ^ b))
        },
        IntermediateInst::DivMod10 => {
            let v = byte_val(s0[s0.len() - 1]);
            &&& m1 == m0
            &&& s1 == s0.drop_last().push(IntermediateValue::Byte(v / 10))
                .push(IntermediateValue::Byte(v % 10))
        },
        IntermediateInst::Neg => {
            let v = byte_val(s0[s0.len() - 1]);
            &&& m1 == m0
            &&& s1 == s0.drop_last().push(IntermediateValue::Byte(((256 - v) % 256) as u8))
        },
        IntermediateInst::BShlOv => {
            let v = byte_val(s0[s0.len() - 1]);
            &&& m1 == m0
            &&& s1 == s0.drop_last().push(IntermediateValue::Byte(((2 * v) % 256) as u8))
                .push(IntermediateValue::Bool(v >= 128))
        },
        IntermediateInst::BShrOv => {
            let v = byte_val(s0[s0.len() - 1]);
            &&& m1 == m0
            &&& s1 == s0.drop_last().push(IntermediateValue::Byte(v / 2))
                .push(IntermediateValue::Bool(v % 2 == 1))
        },
        IntermediateInst::AddOffset => {
            let v = byte_val(s0[s0.len() - 1]);
            let a = addr_val(s0[s0.len() - 2]);
            &&& m1 == m0
            &&& s1 == s0.take(s0.len() - 2).push(IntermediateValue::Addr(((a + v) % 4096) as u16))
        },
    }
}

/// One configuration of a running micro-program: the machine view, the
/// operand stack, and whether some step so far redirected the program
/// counter.
#[verifier::ext_equal]
pub struct IlConfig {
    pub m: MachineView,
    pub s: Seq<IntermediateValue>,
    pub rd: bool,
}

/// The starting configuration of a micro-program: a fresh, empty operand
/// stack and no redirection yet.
pub open spec fn start_cfg(m: MachineView) -> IlConfig {
    IlConfig { m, s: Seq::empty(), rd: false }
}

/// One IL operation, lifted to configurations: the machine and stack step by
/// `il_step`, and the redirection flag accumulates with logical OR.
pub open spec fn il_cstep(i: IntermediateInst, c0: IlConfig, c1: IlConfig) -> bool {
    &&& il_step(i, c0.m, c0.s, c1.m, c1.s)
    &&& c1.rd == (c0.rd || step_redirects(i, c0.s))
}

/// The transition relation of a whole micro-program: every operation in
/// order, each from the configuration the previous one produced.
pub open spec fn il_steps(p: Seq<IntermediateInst>, c0: IlConfig, c1: IlConfig) -> bool
    decreases p.len(),
{
    if p.len() == 0 {
        c1 == c0
    } else {
        exists|cm: IlConfig| #[trigger] il_cstep(p[0], c0, cm) && il_steps(p.skip(1), cm, c1)
    }
}

/// A run extends on the right by one more step.
pub proof fn lemma_il_steps_snoc(
    p: Seq<IntermediateInst>,
    i: IntermediateInst,
    c0: IlConfig,
    cm: IlConfig,
    c1: IlConfig,
)
    requires
        il_steps(p, c0, cm),
        il_cstep(i, cm, c1),
    ensures
        il_steps(p.push(i), c0, c1),
    decreases p.len(),
{
    if p.len() == 0 {
        assert(p.push(i)[0] == i);
        assert(p.push(i).skip(1) =~= Seq::<IntermediateInst>::empty());
        assert(il_cstep(p.push(i)[0], c0, c1) && il_steps(p.push(i).skip(1), c1, c1));
    } else {
        let ca = choose|ca: IlConfig| #[trigger] il_cstep(p[0], c0, ca) && il_steps(p.skip(1), ca, cm);
        lemma_il_steps_snoc(p.skip(1), i, ca, cm, c1);
        assert(p.push(i)[0] == p[0]);
        assert(p.push(i).skip(1) =~= p.skip(1).push(i));
        assert(il_cstep(p.push(i)[0], c0, ca) && il_steps(p.push(i).skip(1), ca, c1));
    }
}

/// A run of a concatenation splits into a run of each part.
pub proof fn lemma_il_steps_split(
    p: Seq<IntermediateInst>,
    q: Seq<IntermediateInst>,
    c0: IlConfig,
    c1: IlConfig,
)
    requires
        il_steps(p + q, c0, c1),
    ensures
        exists|cm: IlConfig| #[trigger] il_steps(p, c0, cm) && il_steps(q, cm, c1),
    decreases p.len(),
{
    if p.len() == 0 {
        assert(p + q =~= q);
        assert(il_steps(p, c0, c0) && il_steps(q, c0, c1));
    } else {
        assert((p + q)[0] == p[0]);
        assert((p + q).len() > 0);
        let ca = choose|ca: IlConfig|
            #[trigger] il_cstep((p + q)[0], c0, ca) && il_steps((p + q).skip(1), ca, c1);
        assert((p + q).skip(1) =~= p.skip(1) + q);
        lemma_il_steps_split(p.skip(1), q, ca, c1);
        let cm = choose|cm: IlConfig| #[trigger] il_steps(p.skip(1), ca, cm) && il_steps(q, cm, c1);
        assert(il_cstep(p[0], c0, ca) && il_steps(p.skip(1), ca, cm));
        assert(il_steps(p, c0, cm));
    }
}

/// An `il_step` of an operation that types takes the stack tags to exactly
/// what `step_typed` says.
pub proof fn lemma_step_tags(
    i: IntermediateInst,
    m0: MachineView,
    s0: Seq<IntermediateValue>,
    m1: MachineView,
    s1: Seq<IntermediateValue>,
)
    requires
        il_step(i, m0, s0, m1, s1),
        step_typed(i, stack_tags(s0)) is Some,
    ensures
        step_typed(i, stack_tags(s0)) == Some(stack_tags(s1)),
{
    let t0 = stack_tags(s0);
    assert(t0.len() == s0.len());
    assert(forall|j: int| 0 <= j < s0.len() ==> t0[j] == tag_of(#[trigger] s0[j]));
    match i {
        IntermediateInst::Illegal => {},
        IntermediateInst::ClearScreen => {},
        IntermediateInst::WriteScreen => {
            assert(stack_tags(s1) =~= t0.take(t0.len() - 3).push(ValueTag::BoolTag));
        },
        IntermediateInst::WaitForKeypress => {
            let k = choose|k: u8| k < 16 && s1 == s0.push(IntermediateValue::Byte(k));
            assert(stack_tags(s1) =~= t0.push(ValueTag::ByteTag));
        },
        IntermediateInst::KeyPressed => {
            assert(stack_tags(s1) =~= t0.drop_last().push(ValueTag::BoolTag));
        },
        IntermediateInst::HexCharAddr => {
            assert(stack_tags(s1) =~= t0.drop_last().push(ValueTag::AddrTag));
        },
        IntermediateInst::RegRead(_) => {
            assert(stack_tags(s1) =~= t0.push(ValueTag::ByteTag));
        },
        IntermediateInst::RegWrite(_) => {
            assert(stack_tags(s1) =~= t0.drop_last());
        },
        IntermediateInst::MemRead => {
            assert(stack_tags(s1) =~= t0.drop_last().push(ValueTag::ByteTag));
        },
        IntermediateInst::MemWrite => {
            assert(stack_tags(s1) =~= t0.take(t0.len() - 2));
        },
        IntermediateInst::GetI => {
            assert(stack_tags(s1) =~= t0.push(ValueTag::AddrTag));
        },
        IntermediateInst::SetI => {
            assert(stack_tags(s1) =~= t0.drop_last());
        },
        IntermediateInst::SetPC => {
            assert(stack_tags(s1) =~= t0.drop_last());
        },
        IntermediateInst::OffsetPC => {
            assert(stack_tags(s1) =~= t0.drop_last());
        },
        IntermediateInst::CondSkipPC => {
            assert(stack_tags(s1) =~= t0.drop_last());
        },
        IntermediateInst::Call => {
            assert(stack_tags(s1) =~= t0.drop_last());
        },
        IntermediateInst::Ret => {},
        IntermediateInst::PushImm(_) => {
            assert(stack_tags(s1) =~= t0.push(ValueTag::ByteTag));
        },
        IntermediateInst::PushImm16(_) => {
            assert(stack_tags(s1) =~= t0.push(ValueTag::AddrTag));
        },
        IntermediateInst::Swap2 => {
            assert(stack_tags(s1) =~= t0.update(t0.len() - 2, t0[t0.len() - 1])
                .update(t0.len() - 1, t0[t0.len() - 2]));
        },
        IntermediateInst::PopIgnore => {
            assert(stack_tags(s1) =~= t0.drop_last());
        },
        IntermediateInst::Rand => {
            let b = choose|b: u8| s1 == s0.push(IntermediateValue::Byte(b));
            assert(stack_tags(s1) =~= t0.push(ValueTag::ByteTag));
        },
        IntermediateInst::True => {
            assert(stack_tags(s1) =~= t0.push(ValueTag::BoolTag));
        },
        IntermediateInst::False => {
            assert(stack_tags(s1) =~= t0.push(ValueTag::BoolTag));
        },
        IntermediateInst::Equal => {
            assert(stack_tags(s1) =~= t0.take(t0.len() - 2).push(ValueTag::BoolTag));
        },
        IntermediateInst::BoolNot => {
            assert(stack_tags(s1) =~= t0.drop_last().push(ValueTag::BoolTag));
        },
        IntermediateInst::BoolOr => {
            assert(stack_tags(s1) =~= t0.take(t0.len() - 2).push(ValueTag::BoolTag));
        },
        IntermediateInst::Select => {
            assert(stack_tags(s1) =~= t0.take(t0.len() - 3).push(ValueTag::ByteTag));
        },
        IntermediateInst::Add | IntermediateInst::BOr | IntermediateInst::BAnd
            | IntermediateInst::BXor => {
            assert(stack_tags(s1) =~= t0.take(t0.len() - 2).push(ValueTag::ByteTag));
        },
        IntermediateInst::AddOv => {
            assert(stack_tags(s1) =~= t0.take(t0.len() - 2).push(ValueTag::ByteTag)
                .push(ValueTag::BoolTag));
        },
        IntermediateInst::DivMod10 => {
            assert(stack_tags(s1) =~= t0.drop_last().push(ValueTag::ByteTag)
                .push(ValueTag::ByteTag));
        },
        IntermediateInst::Neg => {
            assert(stack_tags(s1) =~= t0.drop_last().push(ValueTag::ByteTag));
        },
        IntermediateInst::BShlOv | IntermediateInst::BShrOv => {
            assert(stack_tags(s1) =~= t0.drop_last().push(ValueTag::ByteTag)
                .push(ValueTag::BoolTag));
        },
        IntermediateInst::AddOffset => {
            assert(stack_tags(s1) =~= t0.take(t0.len() - 2).push(ValueTag::AddrTag));
        },
    }
}

/// A run of a micro-program that types from the starting tags takes the
/// stack tags to exactly what `prog_typed` says.
pub proof fn lemma_steps_tags(p: Seq<IntermediateInst>, c0: IlConfig, c1: IlConfig)
    requires
        il_steps(p, c0, c1),
        prog_typed(p, stack_tags(c0.s)) is Some,
    ensures
        prog_typed(p, stack_tags(c0.s)) == Some(stack_tags(c1.s)),
    decreases p.len(),
{
    if p.len() == 0 {
    } else {
        let cm = choose|cm: IlConfig| #[trigger] il_cstep(p[0], c0, cm) && il_steps(p.skip(1), cm, c1);
        lemma_step_tags(p[0], c0.m, c0.s, cm.m, cm.s);
        lemma_steps_tags(p.skip(1), cm, c1);
    }
}

/// `lemma_il_steps_split`, with the witness exposed for `choose`.
pub proof fn lemma_il_steps_split_use(
    p: Seq<IntermediateInst>,
    q: Seq<IntermediateInst>,
    c0: IlConfig,
    c1: IlConfig,
)
    requires
        il_steps(p + q, c0, c1),
    ensures
        exists|cm: IlConfig| #[trigger] il_steps(p, c0, cm) && il_steps(q, cm, c1),
{
    lemma_il_steps_split(p, q, c0, c1);
}

} // verus!
