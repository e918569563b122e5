//! The intermediate language: operand-stack values with their tags, the IL
//! operations a CHIP-8 opcode decodes into, and the stack typing that makes
//! "the decoder emits well-typed micro-programs" a theorem.

use vstd::prelude::*;

verus! {

/// An 8-bit register selector: a general-purpose register (index below 16)
/// or one of the two 60 Hz countdown timers.
#[derive(Clone, Copy, PartialEq, Eq, Structural, Debug)]
pub enum Register8 {
    /// General-purpose register V0..VF; the index must be below 16.
    Generic(u8),
    DelayTimer,
    SoundTimer,
}

/// One entry of the transient operand stack, tagged as a boolean, a 12-bit
/// address, or an 8-bit byte.
#[derive(Clone, Copy, PartialEq, Eq, Structural, Debug)]
pub enum IntermediateValue {
    Bool(bool),
    Addr(u16),
    Byte(u8),
}

/// One IL operation. A decoded opcode is an ordered sequence of these,
/// executed against a fresh operand stack.
#[derive(Clone, Copy, PartialEq, Eq, Structural, Debug)]
pub enum IntermediateInst {
    /// Never emitted by the decoder; executing it is a contract violation.
    Illegal,
    /// Turn every display pixel off.
    ClearScreen,
    /// Pops a byte of sprite bits, a y byte and an x byte; XOR-composites
    /// the row at (x mod 64, y mod 32) and pushes the collision flag.
    WriteScreen,
    /// Blocks until a key is pressed and pushes its number as a byte.
    WaitForKeypress,
    /// Pops a key number byte and pushes whether that key is pressed.
    KeyPressed,
    /// Pops a digit byte and pushes the address of its glyph bitmap
    /// (only the low nibble of the byte is used).
    HexCharAddr,
    /// Pushes the named register as a byte.
    RegRead(Register8),
    /// Pops a byte (or a boolean, stored as 0 or 1) into the named register.
    RegWrite(Register8),
    /// Pops an address and pushes the memory byte there.
    MemRead,
    /// Pops a value byte, then an address; writes the byte to memory.
    MemWrite,
    /// Pushes the index register as an address.
    GetI,
    /// Pops an address into the index register.
    SetI,
    /// Pops an address into the program counter; a redirection.
    SetPC,
    /// Pops an address and jumps to it plus register V0; a redirection.
    OffsetPC,
    /// Pops a boolean; if true, advances the program counter by 4 (skipping
    /// the next instruction) and counts as a redirection.
    CondSkipPC,
    /// Pops a target address, pushes the address of the following
    /// instruction onto the call stack, and jumps; a redirection.
    Call,
    /// Pops the call stack into the program counter; a redirection.
    /// Executing it on an empty call stack is a fatal underflow.
    Ret,
    /// Pushes an immediate byte.
    PushImm(u8),
    /// Pushes an immediate address.
    PushImm16(u16),
    /// Swaps the two topmost stack entries.
    Swap2,
    /// Pops and discards one entry.
    PopIgnore,
    /// Pushes a byte drawn from the host's entropy source.
    Rand,
    /// Pushes the boolean true.
    True,
    /// Pushes the boolean false.
    False,
    /// Pops two bytes and pushes whether they are equal.
    Equal,
    /// Pops a boolean and pushes its negation.
    BoolNot,
    /// Pops two booleans and pushes their disjunction.
    BoolOr,
    /// Pops a boolean selector, then two bytes; pushes the deeper byte when
    /// the selector is true, the shallower one otherwise.
    Select,
    /// Pops two bytes and pushes their sum modulo 256.
    Add,
    /// Pops two bytes and pushes their sum modulo 256, then the carry flag.
    AddOv,
    /// Pops two bytes and pushes their bitwise OR.
    BOr,
    /// Pops two bytes and pushes their bitwise AND.
    BAnd,
    /// Pops two bytes and pushes their bitwise XOR.
    BXor,
    /// Pops a byte v and pushes v / 10, then v % 10.
    DivMod10,
    /// Pops a byte and pushes its two's-complement negation modulo 256.
    Neg,
    /// Pops a byte and pushes it shifted left by one (modulo 256), then the
    /// shifted-out high bit.
    BShlOv,
    /// Pops a byte and pushes it shifted right by one, then the shifted-out
    /// low bit.
    BShrOv,
    /// Pops a byte, then an address; pushes their sum masked to 12 bits.
    AddOffset,
}

/// The tag of an operand-stack entry.
#[derive(Clone, Copy, PartialEq, Eq, Structural, Debug)]
pub enum ValueTag {
    BoolTag,
    AddrTag,
    ByteTag,
}

pub open spec fn tag_of(v: IntermediateValue) -> ValueTag {
    match v {
        IntermediateValue::Bool(_) => ValueTag::BoolTag,
        IntermediateValue::Addr(_) => ValueTag::AddrTag,
        IntermediateValue::Byte(_) => ValueTag::ByteTag,
    }
}

pub open spec fn stack_tags(s: Seq<IntermediateValue>) -> Seq<ValueTag> {
    s.map_values(|v: IntermediateValue| tag_of(v))
}

/// The stack typing of one IL operation: given the tags of the operand stack
/// before the operation, the tags after it, or `None` when the operation
/// would underflow the stack, pop a wrongly-tagged operand, name a register
/// index of 16 or more, or is `Illegal`. The engine only accepts operations
/// that type; the decoder only emits programs that type from the empty stack
/// back to the empty stack.
pub open spec fn step_typed(i: IntermediateInst, t: Seq<ValueTag>) -> Option<Seq<ValueTag>> {
    match i {
        IntermediateInst::Illegal => None,
        IntermediateInst::ClearScreen => Some(t),
        IntermediateInst::WriteScreen => if t.len() >= 3 && t[t.len() - 1] == ValueTag::ByteTag
            && t[t.len() - 2] == ValueTag::ByteTag && t[t.len() - 3] == ValueTag::ByteTag {
            Some(t.take(t.len() - 3).push(ValueTag::BoolTag))
        } else {
            None
        },
        IntermediateInst::WaitForKeypress => Some(t.push(ValueTag::ByteTag)),
        IntermediateInst::KeyPressed => if t.len() >= 1 && t.last() == ValueTag::ByteTag {
            Some(t.drop_last().push(ValueTag::BoolTag))
        } else {
            None
        },
        IntermediateInst::HexCharAddr => if t.len() >= 1 && t.last() == ValueTag::ByteTag {
            Some(t.drop_last().push(ValueTag::AddrTag))
        } else {
            None
        },
        IntermediateInst::RegRead(r) => match r {
            Register8::Generic(x) => if x < 16 {
                Some(t.push(ValueTag::ByteTag))
            } else {
                None
            },
            _ => Some(t.push(ValueTag::ByteTag)),
        },
        IntermediateInst::RegWrite(r) => if t.len() >= 1
            && (t.last() == ValueTag::ByteTag || t.last() == ValueTag::BoolTag) {
            match r {
                Register8::Generic(x) => if x < 16 {
                    Some(t.drop_last())
                } else {
                    None
                },
                _ => Some(t.drop_last()),
            }
        } else {
            None
        },
        IntermediateInst::MemRead => if t.len() >= 1 && t.last() == ValueTag::AddrTag {
            Some(t.drop_last().push(ValueTag::ByteTag))
        } else {
            None
        },
        IntermediateInst::MemWrite => if t.len() >= 2 && t[t.len() - 1] == ValueTag::ByteTag
            && t[t.len() - 2] == ValueTag::AddrTag {
            Some(t.take(t.len() - 2))
        } else {
            None
        },
        IntermediateInst::GetI => Some(t.push(ValueTag::AddrTag)),
        IntermediateInst::SetI => if t.len() >= 1 && t.last() == ValueTag::AddrTag {
            Some(t.drop_last())
        } else {
            None
        },
        IntermediateInst::SetPC => if t.len() >= 1 && t.last() == ValueTag::AddrTag {
            Some(t.drop_last())
        } else {
            None
        },
        IntermediateInst::OffsetPC => if t.len() >= 1 && t.last() == ValueTag::AddrTag {
            Some(t.drop_last())
        } else {
            None
        },
        IntermediateInst::CondSkipPC => if t.len() >= 1 && t.last() == ValueTag::BoolTag {
            Some(t.drop_last())
        } else {
            None
        },
        IntermediateInst::Call => if t.len() >= 1 && t.last() == ValueTag::AddrTag {
            Some(t.drop_last())
        } else {
            None
        },
        IntermediateInst::Ret => Some(t),
        IntermediateInst::PushImm(_) => Some(t.push(ValueTag::ByteTag)),
        IntermediateInst::PushImm16(_) => Some(t.push(ValueTag::AddrTag)),
        IntermediateInst::Swap2 => if t.len() >= 2 {
            Some(t.update(t.len() - 2, t[t.len() - 1]).update(t.len() - 1, t[t.len() - 2]))
        } else {
            None
        },
        IntermediateInst::PopIgnore => if t.len() >= 1 {
            Some(t.drop_last())
        } else {
            None
        },
        IntermediateInst::Rand => Some(t.push(ValueTag::ByteTag)),
        IntermediateInst::True => Some(t.push(ValueTag::BoolTag)),
        IntermediateInst::False => Some(t.push(ValueTag::BoolTag)),
        IntermediateInst::Equal => if t.len() >= 2 && t[t.len() - 1] == ValueTag::ByteTag
            && t[t.len() - 2] == ValueTag::ByteTag {
            Some(t.take(t.len() - 2).push(ValueTag::BoolTag))
        } else {
            None
        },
        IntermediateInst::BoolNot => if t.len() >= 1 && t.last() == ValueTag::BoolTag {
            Some(t.drop_last().push(ValueTag::BoolTag))
        } else {
            None
        },
        IntermediateInst::BoolOr => if t.len() >= 2 && t[t.len() - 1] == ValueTag::BoolTag
            && t[t.len() - 2] == ValueTag::BoolTag {
            Some(t.take(t.len() - 2).push(ValueTag::BoolTag))
        } else {
            None
        },
        IntermediateInst::Select => if t.len() >= 3 && t[t.len() - 1] == ValueTag::BoolTag
            && t[t.len() - 2] == ValueTag::ByteTag && t[t.len() - 3] == ValueTag::ByteTag {
            Some(t.take(t.len() - 3).push(ValueTag::ByteTag))
        } else {
            None
        },
        IntermediateInst::Add | IntermediateInst::BOr | IntermediateInst::BAnd
            | IntermediateInst::BXor => if t.len() >= 2 && t[t.len() - 1] == ValueTag::ByteTag
            && t[t.len() - 2] == ValueTag::ByteTag {
            Some(t.take(t.len() - 2).push(ValueTag::ByteTag))
        } else {
            None
        },
        IntermediateInst::AddOv => if t.len() >= 2 && t[t.len() - 1] == ValueTag::ByteTag
            && t[t.len() - 2] == ValueTag::ByteTag {
            Some(t.take(t.len() - 2).push(ValueTag::ByteTag).push(ValueTag::BoolTag))
        } else {
            None
        },
        IntermediateInst::DivMod10 => if t.len() >= 1 && t.last() == ValueTag::ByteTag {
            Some(t.drop_last().push(ValueTag::ByteTag).push(ValueTag::ByteTag))
        } else {
            None
        },
        IntermediateInst::Neg => if t.len() >= 1 && t.last() == ValueTag::ByteTag {
            Some(t.drop_last().push(ValueTag::ByteTag))
        } else {
            None
        },
        IntermediateInst::BShlOv | IntermediateInst::BShrOv => if t.len() >= 1
            && t.last() == ValueTag::ByteTag {
            Some(t.drop_last().push(ValueTag::ByteTag).push(ValueTag::BoolTag))
        } else {
            None
        },
        IntermediateInst::AddOffset => if t.len() >= 2 && t[t.len() - 1] == ValueTag::ByteTag
            && t[t.len() - 2] == ValueTag::AddrTag {
            Some(t.take(t.len() - 2).push(ValueTag::AddrTag))
        } else {
            None
        },
    }
}

/// The stack typing of a whole micro-program, or `None` when some operation
/// in it fails to type.
pub open spec fn prog_typed(p: Seq<IntermediateInst>, t: Seq<ValueTag>) -> Option<Seq<ValueTag>>
    decreases p.len(),
{
    if p.len() == 0 {
        Some(t)
    } else {
        match step_typed(p[0], t) {
            Some(t2) => prog_typed(p.skip(1), t2),
            None => None,
        }
    }
}

/// Typing composes over concatenation of micro-programs.
pub proof fn lemma_prog_typed_app(p: Seq<IntermediateInst>, q: Seq<IntermediateInst>, t: Seq<ValueTag>)
    ensures
        prog_typed(p + q, t) == (match prog_typed(p, t) {
            Some(t2) => prog_typed(q, t2),
            None => None,
        }),
    decreases p.len(),
{
    if p.len() == 0 {
        assert(p + q =~= q);
    } else {
        assert((p + q)[0] == p[0]);
        match step_typed(p[0], t) {
            Some(t2) => {
                assert((p + q).skip(1) =~= p.skip(1) + q);
                lemma_prog_typed_app(p.skip(1), q, t2);
            },
            None => {
                assert((p + q).len() > 0);
            },
        }
    }
}

} // verus!
