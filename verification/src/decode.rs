//! The instruction decoder: a pure function from a raw 16-bit opcode to a
//! micro-program of IL operations, or `None` for an unrecognized bit
//! pattern. `decode` is the specification; `parse_instruction` computes it.
//!
//! Documented decisions on the classic ambiguities: the shift opcodes
//! (`8xy6`/`8xyE`) ignore register y and shift register x in place; sprites
//! wrap at both display edges at their starting coordinate, rows below the
//! bottom wrap back to the top, and each row is clipped at the right edge;
//! `Fx1E` masks the index register to 12 bits and sets no flag; arithmetic
//! without overflow tracking (`7xkk`) never touches register 15.

use vstd::prelude::*;
use crate::il::{IntermediateInst, Register8};

verus! {

/// The micro-operations of one sprite row: compute (x, y + i), fetch the row
/// byte at I + i, composite it, and fold the row's collision flag into the
/// accumulator below.
pub open spec fn draw_row_ops(x: u8, y: u8, i: u8) -> Seq<IntermediateInst> {
    if i == 0 {
        seq![
            IntermediateInst::RegRead(Register8::Generic(x)),
            IntermediateInst::RegRead(Register8::Generic(y)),
            IntermediateInst::GetI,
            IntermediateInst::MemRead,
            IntermediateInst::WriteScreen,
            IntermediateInst::BoolOr,
        ]
    } else {
        seq![
            IntermediateInst::RegRead(Register8::Generic(x)),
            IntermediateInst::RegRead(Register8::Generic(y)),
            IntermediateInst::PushImm(i),
            IntermediateInst::Add,
            IntermediateInst::GetI,
            IntermediateInst::PushImm(i),
            IntermediateInst::AddOffset,
            IntermediateInst::MemRead,
            IntermediateInst::WriteScreen,
            IntermediateInst::BoolOr,
        ]
    }
}

/// The micro-operations of the first `k` sprite rows, in order.
pub open spec fn draw_rows_ops(x: u8, y: u8, k: nat) -> Seq<IntermediateInst>
    decreases k,
{
    if k == 0 {
        Seq::empty()
    } else {
        draw_rows_ops(x, y, (k - 1) as nat) + draw_row_ops(x, y, (k - 1) as u8)
    }
}

/// The whole micro-program of `Dxyn`: push the two bytes the final `Select`
/// turns into the flag value, a false collision accumulator, then the rows,
/// then store the selected flag into register 15.
pub open spec fn draw_prog(x: u8, y: u8, rows: u8) -> Seq<IntermediateInst> {
    seq![
        IntermediateInst::PushImm(1),
        IntermediateInst::PushImm(0),
        IntermediateInst::False,
    ] + draw_rows_ops(x, y, rows as nat) + seq![
        IntermediateInst::Select,
        IntermediateInst::RegWrite(Register8::Generic(15)),
    ]
}

/// One step of `Fx55`: store register `i` at I, then advance I.
pub open spec fn store_one_ops(i: u8) -> Seq<IntermediateInst> {
    seq![
        IntermediateInst::GetI,
        IntermediateInst::RegRead(Register8::Generic(i)),
        IntermediateInst::MemWrite,
        IntermediateInst::GetI,
        IntermediateInst::PushImm(1),
        IntermediateInst::AddOffset,
        IntermediateInst::SetI,
    ]
}

/// The micro-operations storing registers 0 up to (excluding) `k`.
pub open spec fn store_ops(k: nat) -> Seq<IntermediateInst>
    decreases k,
{
    if k == 0 {
        Seq::empty()
    } else {
        store_ops((k - 1) as nat) + store_one_ops((k - 1) as u8)
    }
}

/// One step of `Fx65`: load register `i` from I, then advance I.
pub open spec fn load_one_ops(i: u8) -> Seq<IntermediateInst> {
    seq![
        IntermediateInst::GetI,
        IntermediateInst::MemRead,
        IntermediateInst::RegWrite(Register8::Generic(i)),
        IntermediateInst::GetI,
        IntermediateInst::PushImm(1),
        IntermediateInst::AddOffset,
        IntermediateInst::SetI,
    ]
}

/// The micro-operations loading registers 0 up to (excluding) `k`.
pub open spec fn load_ops(k: nat) -> Seq<IntermediateInst>
    decreases k,
{
    if k == 0 {
        Seq::empty()
    } else {
        load_ops((k - 1) as nat) + load_one_ops((k - 1) as u8)
    }
}

/// The register-register ALU group `8xyN`, by its low nibble. The opcodes
/// that write a flag into register 15 are only recognized when x is not
/// itself register 15.
pub open spec fn decode_alu(x: u8, y: u8, op: u16) -> Option<Seq<IntermediateInst>> {
    if op == 0x0 {
        Some(seq![
            IntermediateInst::RegRead(Register8::Generic(y)),
            IntermediateInst::RegWrite(Register8::Generic(x)),
        ])
    } else if op == 0x1 {
        Some(seq![
            IntermediateInst::RegRead(Register8::Generic(x)),
            IntermediateInst::RegRead(Register8::Generic(y)),
            IntermediateInst::BOr,
            IntermediateInst::RegWrite(Register8::Generic(x)),
        ])
    } else if op == 0x2 {
        Some(seq![
            IntermediateInst::RegRead(Register8::Generic(x)),
            IntermediateInst::RegRead(Register8::Generic(y)),
            IntermediateInst::BAnd,
            IntermediateInst::RegWrite(Register8::Generic(x)),
        ])
    } else if op == 0x3 {
        Some(seq![
            IntermediateInst::RegRead(Register8::Generic(x)),
            IntermediateInst::RegRead(Register8::Generic(y)),
            IntermediateInst::BXor,
            IntermediateInst::RegWrite(Register8::Generic(x)),
        ])
    } else if op == 0x4 {
        if x == 15 {
            None
        } else {
            Some(seq![
                IntermediateInst::RegRead(Register8::Generic(x)),
                IntermediateInst::RegRead(Register8::Generic(y)),
                IntermediateInst::AddOv,
                IntermediateInst::RegWrite(Register8::Generic(15)),
                IntermediateInst::RegWrite(Register8::Generic(x)),
            ])
        }
    } else if op == 0x5 {
        if x == 15 {
            None
        } else {
            Some(seq![
                IntermediateInst::RegRead(Register8::Generic(x)),
                IntermediateInst::RegRead(Register8::Generic(y)),
                IntermediateInst::Neg,
                IntermediateInst::AddOv,
                IntermediateInst::RegWrite(Register8::Generic(15)),
                IntermediateInst::RegWrite(Register8::Generic(x)),
            ])
        }
    } else if op == 0x6 {
        if x == 15 {
            None
        } else {
            Some(seq![
                IntermediateInst::RegRead(Register8::Generic(x)),
                IntermediateInst::BShrOv,
                IntermediateInst::RegWrite(Register8::Generic(15)),
                IntermediateInst::RegWrite(Register8::Generic(x)),
            ])
        }
    } else if op == 0x7 {
        if x == 15 {
            None
        } else {
            Some(seq![
                IntermediateInst::RegRead(Register8::Generic(y)),
                IntermediateInst::RegRead(Register8::Generic(x)),
                IntermediateInst::Neg,
                IntermediateInst::AddOv,
                IntermediateInst::RegWrite(Register8::Generic(15)),
                IntermediateInst::RegWrite(Register8::Generic(x)),
            ])
        }
    } else if op == 0xE {
        if x == 15 {
            None
        } else {
            Some(seq![
                IntermediateInst::RegRead(Register8::Generic(x)),
                IntermediateInst::BShlOv,
                IntermediateInst::RegWrite(Register8::Generic(15)),
                IntermediateInst::RegWrite(Register8::Generic(x)),
            ])
        }
    } else {
        None
    }
}

/// The micro-program of `Fx33`: store the hundreds, tens and units digits of
/// register x at I, I+1 and I+2.
pub open spec fn bcd_prog(x: u8) -> Seq<IntermediateInst> {
    seq![
        IntermediateInst::RegRead(Register8::Generic(x)),
        IntermediateInst::DivMod10,
        IntermediateInst::GetI,
        IntermediateInst::PushImm(2),
        IntermediateInst::AddOffset,
        IntermediateInst::Swap2,
        IntermediateInst::MemWrite,
        IntermediateInst::DivMod10,
        IntermediateInst::GetI,
        IntermediateInst::PushImm(1),
        IntermediateInst::AddOffset,
        IntermediateInst::Swap2,
        IntermediateInst::MemWrite,
        IntermediateInst::GetI,
        IntermediateInst::Swap2,
        IntermediateInst::MemWrite,
    ]
}

/// The special group `FxNN`, by its low byte.
pub open spec fn decode_fgroup(x: u8, kk: u8) -> Option<Seq<IntermediateInst>> {
    if kk == 0x07 {
        Some(seq![
            IntermediateInst::RegRead(Register8::DelayTimer),
            IntermediateInst::RegWrite(Register8::Generic(x)),
        ])
    } else if kk == 0x0A {
        Some(seq![
            IntermediateInst::WaitForKeypress,
            IntermediateInst::RegWrite(Register8::Generic(x)),
        ])
    } else if kk == 0x15 {
        Some(seq![
            IntermediateInst::RegRead(Register8::Generic(x)),
            IntermediateInst::RegWrite(Register8::DelayTimer),
        ])
    } else if kk == 0x18 {
        Some(seq![
            IntermediateInst::RegRead(Register8::Generic(x)),
            IntermediateInst::RegWrite(Register8::SoundTimer),
        ])
    } else if kk == 0x1E {
        Some(seq![
            IntermediateInst::GetI,
            IntermediateInst::RegRead(Register8::Generic(x)),
            IntermediateInst::AddOffset,
            IntermediateInst::SetI,
        ])
    } else if kk == 0x29 {
        Some(seq![
            IntermediateInst::RegRead(Register8::Generic(x)),
            IntermediateInst::HexCharAddr,
            IntermediateInst::SetI,
        ])
    } else if kk == 0x33 {
        Some(bcd_prog(x))
    } else if kk == 0x55 {
        Some(store_ops(x as nat + 1))
    } else if kk == 0x65 {
        Some(load_ops(x as nat + 1))
    } else {
        None
    }
}

/// The decoder's specification: the micro-program of a 16-bit opcode, or
/// `None` for an unrecognized bit pattern. Decoding is a pure function of
/// the opcode's four nibbles.
pub open spec fn decode(inst: u16) -> Option<Seq<IntermediateInst>> {
    let n1 = inst >> 12;
    let x = ((inst >> 8) & 0xf) as u8;
    let y = ((inst >> 4) & 0xf) as u8;
    let n4 = inst & 0xf;
    let kk = (inst & 0xff) as u8;
    let nnn = inst & 0xfff;
    if inst == 0x00E0 {
        Some(seq![IntermediateInst::ClearScreen])
    } else if inst == 0x00EE {
        Some(seq![IntermediateInst::Ret])
    } else if n1 == 0x0 {
        None
    } else if n1 == 0x1 {
        Some(seq![IntermediateInst::PushImm16(nnn), IntermediateInst::SetPC])
    } else if n1 == 0x2 {
        Some(seq![IntermediateInst::PushImm16(nnn), IntermediateInst::Call])
    } else if n1 == 0x3 {
        Some(seq![
            IntermediateInst::RegRead(Register8::Generic(x)),
            IntermediateInst::PushImm(kk),
            IntermediateInst::Equal,
            IntermediateInst::CondSkipPC,
        ])
    } else if n1 == 0x4 {
        Some(seq![
            IntermediateInst::RegRead(Register8::Generic(x)),
            IntermediateInst::PushImm(kk),
            IntermediateInst::Equal,
            IntermediateInst::BoolNot,
            IntermediateInst::CondSkipPC,
        ])
    } else if n1 == 0x5 {
        if n4 == 0 {
            Some(seq![
                IntermediateInst::RegRead(Register8::Generic(x)),
                IntermediateInst::RegRead(Register8::Generic(y)),
                IntermediateInst::Equal,
                IntermediateInst::CondSkipPC,
            ])
        } else {
            None
        }
    } else if n1 == 0x6 {
        Some(seq![
            IntermediateInst::PushImm(kk),
            IntermediateInst::RegWrite(Register8::Generic(x)),
        ])
    } else if n1 == 0x7 {
        Some(seq![
            IntermediateInst::RegRead(Register8::Generic(x)),
            IntermediateInst::PushImm(kk),
            IntermediateInst::Add,
            IntermediateInst::RegWrite(Register8::Generic(x)),
        ])
    } else if n1 == 0x8 {
        decode_alu(x, y, n4)
    } else if n1 == 0x9 {
        if n4 == 0 {
            Some(seq![
                IntermediateInst::RegRead(Register8::Generic(x)),
                IntermediateInst::RegRead(Register8::Generic(y)),
                IntermediateInst::Equal,
                IntermediateInst::BoolNot,
                IntermediateInst::CondSkipPC,
            ])
        } else {
            None
        }
    } else if n1 == 0xA {
        Some(seq![IntermediateInst::PushImm16(nnn), IntermediateInst::SetI])
    } else if n1 == 0xB {
        Some(seq![IntermediateInst::PushImm16(nnn), IntermediateInst::OffsetPC])
    } else if n1 == 0xC {
        Some(seq![
            IntermediateInst::Rand,
            IntermediateInst::PushImm(kk),
            IntermediateInst::BAnd,
            IntermediateInst::RegWrite(Register8::Generic(x)),
        ])
    } else if n1 == 0xD {
        if x == 15 || y == 15 {
            None
        } else {
            Some(draw_prog(x, y, if n4 == 0 { 16 } else { n4 as u8 }))
        }
    } else if n1 == 0xE {
        if kk == 0x9E {
            Some(seq![
                IntermediateInst::RegRead(Register8::Generic(x)),
                IntermediateInst::KeyPressed,
                IntermediateInst::CondSkipPC,
            ])
        } else if kk == 0xA1 {
            Some(seq![
                IntermediateInst::RegRead(Register8::Generic(x)),
                IntermediateInst::KeyPressed,
                IntermediateInst::BoolNot,
                IntermediateInst::CondSkipPC,
            ])
        } else {
            None
        }
    } else {
        decode_fgroup(x, kk)
    }
}

/// The four nibbles and derived fields of an opcode all lie in their ranges.
pub proof fn lemma_nibbles(inst: u16)
    ensures
        inst >> 12 < 16,
        (inst >> 8) & 0xf < 16,
        (inst >> 4) & 0xf < 16,
        inst & 0xf < 16,
        inst & 0xff < 256,
        inst & 0xfff < 4096,
{
    assert(inst >> 12 < 16 && (inst >> 8) & 0xf < 16 && (inst >> 4) & 0xf < 16
        && inst & 0xf < 16 && inst & 0xff < 256 && inst & 0xfff < 4096) by (bit_vector);
}

/// Decode a raw 16-bit opcode into its micro-program, or `None` for an
/// unrecognized bit pattern. This is the whole instruction decoder: it
/// performs no I/O and has no side effects, and an unrecognized opcode is
/// reported, never skipped.
pub fn parse_instruction(inst: u16) -> (r: Option<Vec<IntermediateInst>>)
    ensures
        r is Some <==> decode(inst) is Some,
        r matches Some(p) ==> decode(inst) == Some(p@),
{
    proof {
        lemma_nibbles(inst);
    }
    let n1 = inst >> 12;
    let x = ((inst >> 8) & 0xf) as u8;
    let y = ((inst >> 4) & 0xf) as u8;
    let n4 = inst & 0xf;
    let kk = (inst & 0xff) as u8;
    let nnn = inst & 0xfff;
    if inst == 0x00E0 {
        let v = vec![IntermediateInst::ClearScreen];
        proof { assert(v@ =~= decode(inst)->0); }
        Some(v)
    } else if inst == 0x00EE {
        let v = vec![IntermediateInst::Ret];
        proof { assert(v@ =~= decode(inst)->0); }
        Some(v)
    } else if n1 == 0x0 {
        None
    } else if n1 == 0x1 {
        let v = vec![IntermediateInst::PushImm16(nnn), IntermediateInst::SetPC];
        proof { assert(v@ =~= decode(inst)->0); }
        Some(v)
    } else if n1 == 0x2 {
        let v = vec![IntermediateInst::PushImm16(nnn), IntermediateInst::Call];
        proof { assert(v@ =~= decode(inst)->0); }
        Some(v)
    } else if n1 == 0x3 {
        let v = vec![
            IntermediateInst::RegRead(Register8::Generic(x)),
            IntermediateInst::PushImm(kk),
            IntermediateInst::Equal,
            IntermediateInst::CondSkipPC,
        ];
        proof { assert(v@ =~= decode(inst)->0); }
        Some(v)
    } else if n1 == 0x4 {
        let v = vec![
            IntermediateInst::RegRead(Register8::Generic(x)),
            IntermediateInst::PushImm(kk),
            IntermediateInst::Equal,
            IntermediateInst::BoolNot,
            IntermediateInst::CondSkipPC,
        ];
        proof { assert(v@ =~= decode(inst)->0); }
        Some(v)
    } else if n1 == 0x5 {
        if n4 == 0 {
            let v = vec![
                IntermediateInst::RegRead(Register8::Generic(x)),
                IntermediateInst::RegRead(Register8::Generic(y)),
                IntermediateInst::Equal,
                IntermediateInst::CondSkipPC,
            ];
            proof { assert(v@ =~= decode(inst)->0); }
            Some(v)
        } else {
            None
        }
    } else if n1 == 0x6 {
        let v = vec![
            IntermediateInst::PushImm(kk),
            IntermediateInst::RegWrite(Register8::Generic(x)),
        ];
        proof { assert(v@ =~= decode(inst)->0); }
        Some(v)
    } else if n1 == 0x7 {
        let v = vec![
            IntermediateInst::RegRead(Register8::Generic(x)),
            IntermediateInst::PushImm(kk),
            IntermediateInst::Add,
            IntermediateInst::RegWrite(Register8::Generic(x)),
        ];
        proof { assert(v@ =~= decode(inst)->0); }
        Some(v)
    } else if n1 == 0x8 {
        parse_alu(inst, x, y, n4)
    } else if n1 == 0x9 {
        if n4 == 0 {
            let v = vec![
                IntermediateInst::RegRead(Register8::Generic(x)),
                IntermediateInst::RegRead(Register8::Generic(y)),
                IntermediateInst::Equal,
                IntermediateInst::BoolNot,
                IntermediateInst::CondSkipPC,
            ];
            proof { assert(v@ =~= decode(inst)->0); }
            Some(v)
        } else {
            None
        }
    } else if n1 == 0xA {
        let v = vec![IntermediateInst::PushImm16(nnn), IntermediateInst::SetI];
        proof { assert(v@ =~= decode(inst)->0); }
        Some(v)
    } else if n1 == 0xB {
        let v = vec![IntermediateInst::PushImm16(nnn), IntermediateInst::OffsetPC];
        proof { assert(v@ =~= decode(inst)->0); }
        Some(v)
    } else if n1 == 0xC {
        let v = vec![
            IntermediateInst::Rand,
            IntermediateInst::PushImm(kk),
            IntermediateInst::BAnd,
            IntermediateInst::RegWrite(Register8::Generic(x)),
        ];
        proof { assert(v@ =~= decode(inst)->0); }
        Some(v)
    } else if n1 == 0xD {
        if x == 15 || y == 15 {
            None
        } else {
            let rows: u8 = if n4 == 0 { 16 } else { n4 as u8 };
            let mut v = vec![
                IntermediateInst::PushImm(1),
                IntermediateInst::PushImm(0),
                IntermediateInst::False,
            ];
            let ghost prefix = v@;
            let mut i: u8 = 0;
            while i < rows
                invariant
                    i <= rows,
                    x < 16,
                    y < 16,
                    v@ == prefix + draw_rows_ops(x, y, i as nat),
                    prefix == seq![
                        IntermediateInst::PushImm(1),
                        IntermediateInst::PushImm(0),
                        IntermediateInst::False,
                    ],
                decreases rows - i,
            {
                let ghost before = v@;
                v.push(IntermediateInst::RegRead(Register8::Generic(x)));
                v.push(IntermediateInst::RegRead(Register8::Generic(y)));
                if i != 0 {
                    v.push(IntermediateInst::PushImm(i));
                    v.push(IntermediateInst::Add);
                }
                v.push(IntermediateInst::GetI);
                if i != 0 {
                    v.push(IntermediateInst::PushImm(i));
                    v.push(IntermediateInst::AddOffset);
                }
                v.push(IntermediateInst::MemRead);
                v.push(IntermediateInst::WriteScreen);
                v.push(IntermediateInst::BoolOr);
                proof {
                    assert(v@ =~= before + draw_row_ops(x, y, i));
                    assert(draw_rows_ops(x, y, (i + 1) as nat)
                        == draw_rows_ops(x, y, i as nat) + draw_row_ops(x, y, i));
                    assert(v@ =~= prefix + draw_rows_ops(x, y, (i + 1) as nat));
                }
                i = i + 1;
            }
            v.push(IntermediateInst::Select);
            v.push(IntermediateInst::RegWrite(Register8::Generic(15)));
            proof {
                assert(v@ =~= draw_prog(x, y, rows));
                assert(decode(inst) == Some(draw_prog(x, y, rows)));
            }
            Some(v)
        }
    } else if n1 == 0xE {
        if kk == 0x9E {
            let v = vec![
                IntermediateInst::RegRead(Register8::Generic(x)),
                IntermediateInst::KeyPressed,
                IntermediateInst::CondSkipPC,
            ];
            proof { assert(v@ =~= decode(inst)->0); }
            Some(v)
        } else if kk == 0xA1 {
            let v = vec![
                IntermediateInst::RegRead(Register8::Generic(x)),
                IntermediateInst::KeyPressed,
                IntermediateInst::BoolNot,
                IntermediateInst::CondSkipPC,
            ];
            proof { assert(v@ =~= decode(inst)->0); }
            Some(v)
        } else {
            None
        }
    } else {
        parse_fgroup(inst, x, kk)
    }
}

/// The ALU group of `parse_instruction`.
fn parse_alu(inst: u16, x: u8, y: u8, n4: u16) -> (r: Option<Vec<IntermediateInst>>)
    requires
        x == ((inst >> 8) & 0xf) as u8,
        y == ((inst >> 4) & 0xf) as u8,
        n4 == inst & 0xf,
        x < 16,
        y < 16,
    ensures
        r is Some <==> decode_alu(x, y, n4) is Some,
        r matches Some(p) ==> decode_alu(x, y, n4) == Some(p@),
{
    if n4 == 0x0 {
        let v = vec![
            IntermediateInst::RegRead(Register8::Generic(y)),
            IntermediateInst::RegWrite(Register8::Generic(x)),
        ];
        proof { assert(v@ =~= decode_alu(x, y, n4)->0); }
        Some(v)
    } else if n4 == 0x1 || n4 == 0x2 || n4 == 0x3 {
        let op = if n4 == 0x1 {
            IntermediateInst::BOr
        } else if n4 == 0x2 {
            IntermediateInst::BAnd
        } else {
            IntermediateInst::BXor
        };
        let v = vec![
            IntermediateInst::RegRead(Register8::Generic(x)),
            IntermediateInst::RegRead(Register8::Generic(y)),
            op,
            IntermediateInst::RegWrite(Register8::Generic(x)),
        ];
        proof { assert(v@ =~= decode_alu(x, y, n4)->0); }
        Some(v)
    } else if n4 == 0x4 {
        if x == 15 {
            return None;
        }
        let v = vec![
            IntermediateInst::RegRead(Register8::Generic(x)),
            IntermediateInst::RegRead(Register8::Generic(y)),
            IntermediateInst::AddOv,
            IntermediateInst::RegWrite(Register8::Generic(15)),
            IntermediateInst::RegWrite(Register8::Generic(x)),
        ];
        proof { assert(v@ =~= decode_alu(x, y, n4)->0); }
        Some(v)
    } else if n4 == 0x5 {
        if x == 15 {
            return None;
        }
        let v = vec![
            IntermediateInst::RegRead(Register8::Generic(x)),
            IntermediateInst::RegRead(Register8::Generic(y)),
            IntermediateInst::Neg,
            IntermediateInst::AddOv,
            IntermediateInst::RegWrite(Register8::Generic(15)),
            IntermediateInst::RegWrite(Register8::Generic(x)),
        ];
        proof { assert(v@ =~= decode_alu(x, y, n4)->0); }
        Some(v)
    } else if n4 == 0x6 {
        if x == 15 {
            return None;
        }
        let v = vec![
            IntermediateInst::RegRead(Register8::Generic(x)),
            IntermediateInst::BShrOv,
            IntermediateInst::RegWrite(Register8::Generic(15)),
            IntermediateInst::RegWrite(Register8::Generic(x)),
        ];
        proof { assert(v@ =~= decode_alu(x, y, n4)->0); }
        Some(v)
    } else if n4 == 0x7 {
        if x == 15 {
            return None;
        }
        let v = vec![
            IntermediateInst::RegRead(Register8::Generic(y)),
            IntermediateInst::RegRead(Register8::Generic(x)),
            IntermediateInst::Neg,
            IntermediateInst::AddOv,
            IntermediateInst::RegWrite(Register8::Generic(15)),
            IntermediateInst::RegWrite(Register8::Generic(x)),
        ];
        proof { assert(v@ =~= decode_alu(x, y, n4)->0); }
        Some(v)
    } else if n4 == 0xE {
        if x == 15 {
            return None;
        }
        let v = vec![
            IntermediateInst::RegRead(Register8::Generic(x)),
            IntermediateInst::BShlOv,
            IntermediateInst::RegWrite(Register8::Generic(15)),
            IntermediateInst::RegWrite(Register8::Generic(x)),
        ];
        proof { assert(v@ =~= decode_alu(x, y, n4)->0); }
        Some(v)
    } else {
        None
    }
}

/// The special group of `parse_instruction`.
fn parse_fgroup(inst: u16, x: u8, kk: u8) -> (r: Option<Vec<IntermediateInst>>)
    requires
        x == ((inst >> 8) & 0xf) as u8,
        kk == (inst & 0xff) as u8,
        x < 16,
    ensures
        r is Some <==> decode_fgroup(x, kk) is Some,
        r matches Some(p) ==> decode_fgroup(x, kk) == Some(p@),
{
    if kk == 0x07 {
        let v = vec![
            IntermediateInst::RegRead(Register8::DelayTimer),
            IntermediateInst::RegWrite(Register8::Generic(x)),
        ];
        proof { assert(v@ =~= decode_fgroup(x, kk)->0); }
        Some(v)
    } else if kk == 0x0A {
        let v = vec![
            IntermediateInst::WaitForKeypress,
            IntermediateInst::RegWrite(Register8::Generic(x)),
        ];
        proof { assert(v@ =~= decode_fgroup(x, kk)->0); }
        Some(v)
    } else if kk == 0x15 {
        let v = vec![
            IntermediateInst::RegRead(Register8::Generic(x)),
            IntermediateInst::RegWrite(Register8::DelayTimer),
        ];
        proof { assert(v@ =~= decode_fgroup(x, kk)->0); }
        Some(v)
    } else if kk == 0x18 {
        let v = vec![
            IntermediateInst::RegRead(Register8::Generic(x)),
            IntermediateInst::RegWrite(Register8::SoundTimer),
        ];
        proof { assert(v@ =~= decode_fgroup(x, kk)->0); }
        Some(v)
    } else if kk == 0x1E {
        let v = vec![
            IntermediateInst::GetI,
            IntermediateInst::RegRead(Register8::Generic(x)),
            IntermediateInst::AddOffset,
            IntermediateInst::SetI,
        ];
        proof { assert(v@ =~= decode_fgroup(x, kk)->0); }
        Some(v)
    } else if kk == 0x29 {
        let v = vec![
            IntermediateInst::RegRead(Register8::Generic(x)),
            IntermediateInst::HexCharAddr,
            IntermediateInst::SetI,
        ];
        proof { assert(v@ =~= decode_fgroup(x, kk)->0); }
        Some(v)
    } else if kk == 0x33 {
        let v = vec![
            IntermediateInst::RegRead(Register8::Generic(x)),
            IntermediateInst::DivMod10,
            IntermediateInst::GetI,
            IntermediateInst::PushImm(2),
            IntermediateInst::AddOffset,
            IntermediateInst::Swap2,
            IntermediateInst::MemWrite,
            IntermediateInst::DivMod10,
            IntermediateInst::GetI,
            IntermediateInst::PushImm(1),
            IntermediateInst::AddOffset,
            IntermediateInst::Swap2,
            IntermediateInst::MemWrite,
            IntermediateInst::GetI,
            IntermediateInst::Swap2,
            IntermediateInst::MemWrite,
        ];
        proof { assert(v@ =~= bcd_prog(x)); }
        Some(v)
    } else if kk == 0x55 {
        let mut v: Vec<IntermediateInst> = Vec::new();
        let mut i: u8 = 0;
        while i <= x
            invariant
                i <= x + 1,
                x < 16,
                v@ == store_ops(i as nat),
            decreases x + 1 - i,
        {
            let ghost before = v@;
            v.push(IntermediateInst::GetI);
            v.push(IntermediateInst::RegRead(Register8::Generic(i)));
            v.push(IntermediateInst::MemWrite);
            v.push(IntermediateInst::GetI);
            v.push(IntermediateInst::PushImm(1));
            v.push(IntermediateInst::AddOffset);
            v.push(IntermediateInst::SetI);
            proof {
                assert(v@ =~= before + store_one_ops(i));
                assert(store_ops((i + 1) as nat)
                    == store_ops(i as nat) + store_one_ops(i));
            }
            i = i + 1;
        }
        proof { assert(v@ == store_ops(x as nat + 1)); }
        Some(v)
    } else if kk == 0x65 {
        let mut v: Vec<IntermediateInst> = Vec::new();
        let mut i: u8 = 0;
        while i <= x
            invariant
                i <= x + 1,
                x < 16,
                v@ == load_ops(i as nat),
            decreases x + 1 - i,
        {
            let ghost before = v@;
            v.push(IntermediateInst::GetI);
            v.push(IntermediateInst::MemRead);
            v.push(IntermediateInst::RegWrite(Register8::Generic(i)));
            v.push(IntermediateInst::GetI);
            v.push(IntermediateInst::PushImm(1));
            v.push(IntermediateInst::AddOffset);
            v.push(IntermediateInst::SetI);
            proof {
                assert(v@ =~= before + load_one_ops(i));
                assert(load_ops((i + 1) as nat)
                    == load_ops(i as nat) + load_one_ops(i));
            }
            i = i + 1;
        }
        proof { assert(v@ == load_ops(x as nat + 1)); }
        Some(v)
    } else {
        None
    }
}

} // verus!
