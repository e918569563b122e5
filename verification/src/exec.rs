//! The IL execution engine: runs one IL operation, or a whole decoded
//! micro-program, against the machine-state interface using a transient,
//! typed operand stack. Every operation's effect is proved to be exactly an
//! `il_step` of the semantics.

use vstd::prelude::*;
use crate::il::{IntermediateInst, IntermediateValue, Register8, ValueTag, tag_of, stack_tags,
    step_typed};
use crate::state::{Chip8State, wf};
use crate::semantics::{il_step, step_redirects, mask12};

verus! {

/// Truncating a 16-bit value to 12 bits is reduction modulo 4096.
pub proof fn lemma_mask12(a: u16)
    ensures
        a & 0xfff == a % 4096,
{
    assert(a & 0xfff == a % 4096) by (bit_vector);
}

/// Truncating a byte to 6 bits is reduction modulo 64.
pub proof fn lemma_mask6(x: u8)
    ensures
        x & 0x3f == x % 64,
{
    assert(x & 0x3f == x % 64) by (bit_vector);
}

/// Truncating a byte to 5 bits is reduction modulo 32.
pub proof fn lemma_mask5(y: u8)
    ensures
        y & 0x1f == y % 32,
{
    assert(y & 0x1f == y % 32) by (bit_vector);
}

/// Pop an entry the typing promises to be a byte.
fn pop_byte(stack: &mut Vec<IntermediateValue>) -> (b: u8)
    requires
        old(stack)@.len() > 0,
        tag_of(old(stack)@.last()) == ValueTag::ByteTag,
    ensures
        final(stack)@ == old(stack)@.drop_last(),
        old(stack)@.last() == IntermediateValue::Byte(b),
{
    match stack.pop().unwrap() {
        IntermediateValue::Byte(b) => b,
        _ => unreached(),
    }
}

/// Pop an entry the typing promises to be an address.
fn pop_addr(stack: &mut Vec<IntermediateValue>) -> (a: u16)
    requires
        old(stack)@.len() > 0,
        tag_of(old(stack)@.last()) == ValueTag::AddrTag,
    ensures
        final(stack)@ == old(stack)@.drop_last(),
        old(stack)@.last() == IntermediateValue::Addr(a),
{
    match stack.pop().unwrap() {
        IntermediateValue::Addr(a) => a,
        _ => unreached(),
    }
}

/// Pop an entry the typing promises to be a boolean.
fn pop_bool(stack: &mut Vec<IntermediateValue>) -> (b: bool)
    requires
        old(stack)@.len() > 0,
        tag_of(old(stack)@.last()) == ValueTag::BoolTag,
    ensures
        final(stack)@ == old(stack)@.drop_last(),
        old(stack)@.last() == IntermediateValue::Bool(b),
{
    match stack.pop().unwrap() {
        IntermediateValue::Bool(b) => b,
        _ => unreached(),
    }
}

/// Pop a register-write operand: a byte, or a boolean stored as 1 or 0.
fn pop_write_val(stack: &mut Vec<IntermediateValue>) -> (b: u8)
    requires
        old(stack)@.len() > 0,
        tag_of(old(stack)@.last()) == ValueTag::ByteTag
            || tag_of(old(stack)@.last()) == ValueTag::BoolTag,
    ensures
        final(stack)@ == old(stack)@.drop_last(),
        b == crate::semantics::reg_write_val(old(stack)@.last()),
{
    match stack.pop().unwrap() {
        IntermediateValue::Byte(b) => b,
        IntermediateValue::Bool(b) => if b { 1 } else { 0 },
        _ => unreached(),
    }
}

impl IntermediateInst {
    /// Execute one IL operation against the machine state and the operand
    /// stack, and report whether it redirected the program counter. The
    /// operation must type against the current stack tags, which is why the
    /// engine can never pop an empty stack or a wrongly-tagged operand: the
    /// decoder only emits micro-programs that type.
    pub fn execute<S: Chip8State>(self, state: &mut S, stack: &mut Vec<IntermediateValue>) -> (redirect: bool)
        requires
            wf(old(state).model()),
            step_typed(self, stack_tags(old(stack)@)) is Some,
            self is Ret ==> old(state).model().ret_stack.len() > 0,
        ensures
            wf(final(state).model()),
            il_step(self, old(state).model(), old(stack)@, final(state).model(), final(stack)@),
            redirect == step_redirects(self, old(stack)@),
    {
        proof {
            assert(stack_tags(stack@).len() == stack@.len());
            assert(forall|j: int| 0 <= j < stack@.len()
                ==> stack_tags(stack@)[j] == tag_of(#[trigger] stack@[j]));
        }
        match self {
            IntermediateInst::Illegal => unreached(),
            IntermediateInst::ClearScreen => {
                state.clear_screen();
                false
            },
            IntermediateInst::WriteScreen => {
                let bits = pop_byte(stack);
                let y = pop_byte(stack);
                let x = pop_byte(stack);
                proof {
                    lemma_mask6(x);
                    lemma_mask5(y);
                }
                let collision = state.screen_xor_line(x & 0x3f, y & 0x1f, bits);
                stack.push(IntermediateValue::Bool(collision));
                proof {
                    assert(stack@ =~= old(stack)@.take(old(stack)@.len() - 3)
                        .push(IntermediateValue::Bool(collision)));
                }
                false
            },
            IntermediateInst::WaitForKeypress => {
                let k = state.wait_for_keypress();
                stack.push(IntermediateValue::Byte(k));
                proof {
                    assert(k < 16 && stack@ == old(stack)@.push(IntermediateValue::Byte(k)));
                }
                false
            },
            IntermediateInst::KeyPressed => {
                let k = pop_byte(stack);
                let pressed = state.get_key_status(k);
                stack.push(IntermediateValue::Bool(pressed));
                false
            },
            IntermediateInst::HexCharAddr => {
                let c = pop_byte(stack);
                let a = state.get_hex_char_addr(c % 16);
                stack.push(IntermediateValue::Addr(a));
                proof {
                    assert((c % 16) % 16 == c % 16);
                }
                false
            },
            IntermediateInst::RegRead(r) => {
                let v = match r {
                    Register8::Generic(x) => state.read_gp_register(x),
                    Register8::DelayTimer => state.get_delay(),
                    Register8::SoundTimer => state.get_sound(),
                };
                stack.push(IntermediateValue::Byte(v));
                false
            },
            IntermediateInst::RegWrite(r) => {
                let v = pop_write_val(stack);
                match r {
                    Register8::Generic(x) => state.write_gp_register(x, v),
                    Register8::DelayTimer => state.set_delay(v),
                    Register8::SoundTimer => state.set_sound(v),
                }
                false
            },
            IntermediateInst::MemRead => {
                let a = pop_addr(stack);
                proof {
                    lemma_mask12(a);
                }
                let v = state.read_mem(a & 0xfff);
                stack.push(IntermediateValue::Byte(v));
                false
            },
            IntermediateInst::MemWrite => {
                let v = pop_byte(stack);
                let a = pop_addr(stack);
                proof {
                    lemma_mask12(a);
                }
                state.write_mem(a & 0xfff, v);
                proof {
                    assert(stack@ =~= old(stack)@.take(old(stack)@.len() - 2));
                }
                false
            },
            IntermediateInst::GetI => {
                let a = state.get_i();
                stack.push(IntermediateValue::Addr(a));
                false
            },
            IntermediateInst::SetI => {
                let a = pop_addr(stack);
                proof {
                    lemma_mask12(a);
                }
                state.set_i(a & 0xfff);
                false
            },
            IntermediateInst::SetPC => {
                let a = pop_addr(stack);
                proof {
                    lemma_mask12(a);
                }
                state.set_pc(a & 0xfff);
                true
            },
            IntermediateInst::OffsetPC => {
                let a = pop_addr(stack);
                let v0 = state.read_gp_register(0);
                let target = ((a as u32 + v0 as u32) % 4096) as u16;
                state.set_pc(target);
                true
            },
            IntermediateInst::CondSkipPC => {
                let b = pop_bool(stack);
                if b {
                    let pc = state.get_pc();
                    state.set_pc((pc + 4) % 4096);
                }
                b
            },
            IntermediateInst::Call => {
                let a = pop_addr(stack);
                let pc = state.get_pc();
                state.stack_push((pc + 2) % 4096);
                proof {
                    lemma_mask12(a);
                }
                state.set_pc(a & 0xfff);
                true
            },
            IntermediateInst::Ret => {
                proof {
                    assert(old(state).model().ret_stack.last()
                        == old(state).model().ret_stack[old(state).model().ret_stack.len() - 1]);
                }
                let v = state.stack_pop();
                state.set_pc(v);
                proof {
                    assert(mask12(v) == v);
                }
                true
            },
            IntermediateInst::PushImm(v) => {
                stack.push(IntermediateValue::Byte(v));
                false
            },
            IntermediateInst::PushImm16(v) => {
                stack.push(IntermediateValue::Addr(v));
                false
            },
            IntermediateInst::Swap2 => {
                let l = stack.len();
                let a = stack[l - 1];
                let b = stack[l - 2];
                stack.set(l - 1, b);
                stack.set(l - 2, a);
                proof {
                    assert(stack@ =~= old(stack)@.update(old(stack)@.len() - 2,
                        old(stack)@[old(stack)@.len() - 1]).update(old(stack)@.len() - 1,
                        old(stack)@[old(stack)@.len() - 2]));
                }
                false
            },
            IntermediateInst::PopIgnore => {
                let popped = stack.pop();
                proof {
                    assert(stack@ =~= old(stack)@.drop_last());
                }
                false
            },
            IntermediateInst::Rand => {
                let b = state.random_byte();
                stack.push(IntermediateValue::Byte(b));
                proof {
                    assert(stack@ == old(stack)@.push(IntermediateValue::Byte(b)));
                }
                false
            },
            IntermediateInst::True => {
                stack.push(IntermediateValue::Bool(true));
                false
            },
            IntermediateInst::False => {
                stack.push(IntermediateValue::Bool(false));
                false
            },
            IntermediateInst::Equal => {
                let a = pop_byte(stack);
                let b = pop_byte(stack);
                stack.push(IntermediateValue::Bool(a == b));
                proof {
                    assert(stack@ =~= old(stack)@.take(old(stack)@.len() - 2)
                        .push(IntermediateValue::Bool(a == b)));
                }
                false
            },
            IntermediateInst::BoolNot => {
                let b = pop_bool(stack);
                stack.push(IntermediateValue::Bool(!b));
                false
            },
            IntermediateInst::BoolOr => {
                let a = pop_bool(stack);
                let b = pop_bool(stack);
                stack.push(IntermediateValue::Bool(a || b));
                proof {
                    assert(stack@ =~= old(stack)@.take(old(stack)@.len() - 2)
                        .push(IntermediateValue::Bool(a || b)));
                }
                false
            },
            IntermediateInst::Select => {
                let sel = pop_bool(stack);
                let b = pop_byte(stack);
                let a = pop_byte(stack);
                stack.push(IntermediateValue::Byte(if sel { a } else { b }));
                proof {
                    assert(stack@ =~= old(stack)@.take(old(stack)@.len() - 3)
                        .push(IntermediateValue::Byte(if sel { a } else { b })));
                }
                false
            },
            IntermediateInst::Add => {
                let a = pop_byte(stack);
                let b = pop_byte(stack);
                let sum = ((a as u16 + b as u16) % 256) as u8;
                stack.push(IntermediateValue::Byte(sum));
                proof {
                    assert(stack@ =~= old(stack)@.take(old(stack)@.len() - 2)
                        .push(IntermediateValue::Byte(sum)));
                }
                false
            },
            IntermediateInst::AddOv => {
                let a = pop_byte(stack);
                let b = pop_byte(stack);
                let wide = a as u16 + b as u16;
                let sum = (wide % 256) as u8;
                stack.push(IntermediateValue::Byte(sum));
                stack.push(IntermediateValue::Bool(wide >= 256));
                proof {
                    assert(stack@ =~= old(stack)@.take(old(stack)@.len() - 2)
                        .push(IntermediateValue::Byte(sum))
                        .push(IntermediateValue::Bool(wide >= 256)));
                }
                false
            },
            IntermediateInst::BOr => {
                let a = pop_byte(stack);
                let b = pop_byte(stack);
                stack.push(IntermediateValue::Byte(a | b));
                proof {
                    assert(stack@ =~= old(stack)@.take(old(stack)@.len() - 2)
                        .push(IntermediateValue::Byte(a | b)));
                }
                false
            },
            IntermediateInst::BAnd => {
                let a = pop_byte(stack);
                let b = pop_byte(stack);
                stack.push(IntermediateValue::Byte(a & b));
                proof {
                    assert(stack@ =~= old(stack)@.take(old(stack)@.len() - 2)
                        .push(IntermediateValue::Byte(a & b)));
                }
                false
            },
            IntermediateInst::BXor => {
                let a = pop_byte(stack);
                let b = pop_byte(stack);
                stack.push(IntermediateValue::Byte(a ^ b));
                proof {
                    assert(stack@ =~= old(stack)@.take(old(stack)@.len() - 2)
                        .push(IntermediateValue::Byte(a ^ b)));
                }
                false
            },
            IntermediateInst::DivMod10 => {
                let v = pop_byte(stack);
                stack.push(IntermediateValue::Byte(v / 10));
                stack.push(IntermediateValue::Byte(v % 10));
                false
            },
            IntermediateInst::Neg => {
                let v = pop_byte(stack);
                let r = ((256u16 - v as u16) % 256) as u8;
                stack.push(IntermediateValue::Byte(r));
                false
            },
            IntermediateInst::BShlOv => {
                let v = pop_byte(stack);
                let shifted = ((2 * v as u16) % 256) as u8;
                stack.push(IntermediateValue::Byte(shifted));
                stack.push(IntermediateValue::Bool(v >= 128));
                false
            },
            IntermediateInst::BShrOv => {
                let v = pop_byte(stack);
                stack.push(IntermediateValue::Byte(v / 2));
                stack.push(IntermediateValue::Bool(v % 2 == 1));
                false
            },
            IntermediateInst::AddOffset => {
                let v = pop_byte(stack);
                let a = pop_addr(stack);
                let r = ((a as u32 + v as u32) % 4096) as u16;
                stack.push(IntermediateValue::Addr(r));
                proof {
                    assert(stack@ =~= old(stack)@.take(old(stack)@.len() - 2)
                        .push(IntermediateValue::Addr(r)));
                }
                false
            },
        }
    }
}

} // verus!
