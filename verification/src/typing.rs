//! Well-typedness of every decoded micro-program: each one takes the empty
//! operand stack back to the empty operand stack, never underflows, and
//! never pops a wrongly-tagged operand. This is what entitles the engine to
//! demand well-typed programs and lets the driver run them.

use vstd::prelude::*;
use crate::il::{IntermediateInst, Register8, ValueTag, step_typed, prog_typed,
    lemma_prog_typed_app};
use crate::decode::{decode, decode_alu, decode_fgroup, bcd_prog, draw_prog, draw_row_ops,
    draw_rows_ops, store_ops, store_one_ops, load_ops, load_one_ops, lemma_nibbles};

verus! {

/// Whether a micro-program is free of `Ret`. Every decoded micro-program but
/// that of `00EE` is; the driver uses this to know when the call stack must
/// be consulted before running.
pub open spec fn no_ret(p: Seq<IntermediateInst>) -> bool {
    forall|k: int| 0 <= k < p.len() ==> !(#[trigger] p[k] is Ret)
}

/// `no_ret` is preserved by concatenation.
pub proof fn lemma_no_ret_app(a: Seq<IntermediateInst>, b: Seq<IntermediateInst>)
    requires
        no_ret(a),
        no_ret(b),
    ensures
        no_ret(a + b),
{
    assert forall|k: int| 0 <= k < (a + b).len() implies !(#[trigger] (a + b)[k] is Ret) by {
        if k < a.len() {
            assert((a + b)[k] == a[k]);
        } else {
            assert((a + b)[k] == b[k - a.len()]);
        }
    }
}

/// One well-typed operation advances the typing of the rest of the program.
pub proof fn lemma_typed_at(p: Seq<IntermediateInst>, k: int, t: Seq<ValueTag>, t2: Seq<ValueTag>)
    requires
        0 <= k < p.len(),
        step_typed(p[k], t) == Some(t2),
    ensures
        prog_typed(p.skip(k), t) == prog_typed(p.skip(k + 1), t2),
{
    assert(p.skip(k)[0] == p[k]);
    assert(p.skip(k).skip(1) =~= p.skip(k + 1));
}

/// Typing of the `00E0` micro-program.
pub proof fn lemma_typed_clear()
    ensures
        prog_typed(seq![
        IntermediateInst::ClearScreen,
    ], Seq::<ValueTag>::empty()) == Some(Seq::<ValueTag>::empty()),
{
    let p = seq![
        IntermediateInst::ClearScreen,
    ];
    let t0 = Seq::<ValueTag>::empty();
    let t1 = t0;
    lemma_typed_at(p, 0, t0, t1);
    assert(p.skip(1) =~= Seq::<IntermediateInst>::empty());
    assert(t1 =~= Seq::<ValueTag>::empty());
    assert(p.skip(0) == p);
}

/// Typing of the `00EE` micro-program.
pub proof fn lemma_typed_ret()
    ensures
        prog_typed(seq![
        IntermediateInst::Ret,
    ], Seq::<ValueTag>::empty()) == Some(Seq::<ValueTag>::empty()),
{
    let p = seq![
        IntermediateInst::Ret,
    ];
    let t0 = Seq::<ValueTag>::empty();
    let t1 = t0;
    lemma_typed_at(p, 0, t0, t1);
    assert(p.skip(1) =~= Seq::<IntermediateInst>::empty());
    assert(t1 =~= Seq::<ValueTag>::empty());
    assert(p.skip(0) == p);
}

/// Typing of the `1nnn` micro-program.
pub proof fn lemma_typed_jump(nnn: u16)
    ensures
        prog_typed(seq![
        IntermediateInst::PushImm16(nnn),
        IntermediateInst::SetPC,
    ], Seq::<ValueTag>::empty()) == Some(Seq::<ValueTag>::empty()),
{
    let p = seq![
        IntermediateInst::PushImm16(nnn),
        IntermediateInst::SetPC,
    ];
    let t0 = Seq::<ValueTag>::empty();
    let t1 = t0.push(ValueTag::AddrTag);
    lemma_typed_at(p, 0, t0, t1);
    let t2 = t1.drop_last();
    lemma_typed_at(p, 1, t1, t2);
    assert(p.skip(2) =~= Seq::<IntermediateInst>::empty());
    assert(t2 =~= Seq::<ValueTag>::empty());
    assert(p.skip(0) == p);
}

/// Typing of the `2nnn` micro-program.
pub proof fn lemma_typed_call(nnn: u16)
    ensures
        prog_typed(seq![
        IntermediateInst::PushImm16(nnn),
        IntermediateInst::Call,
    ], Seq::<ValueTag>::empty()) == Some(Seq::<ValueTag>::empty()),
{
    let p = seq![
        IntermediateInst::PushImm16(nnn),
        IntermediateInst::Call,
    ];
    let t0 = Seq::<ValueTag>::empty();
    let t1 = t0.push(ValueTag::AddrTag);
    lemma_typed_at(p, 0, t0, t1);
    let t2 = t1.drop_last();
    lemma_typed_at(p, 1, t1, t2);
    assert(p.skip(2) =~= Seq::<IntermediateInst>::empty());
    assert(t2 =~= Seq::<ValueTag>::empty());
    assert(p.skip(0) == p);
}

/// Typing of the `3xkk` micro-program.
pub proof fn lemma_typed_skip_eq_imm(x: u8, kk: u8)
    requires
        x < 16,
    ensures
        prog_typed(seq![
        IntermediateInst::RegRead(Register8::Generic(x)),
        IntermediateInst::PushImm(kk),
        IntermediateInst::Equal,
        IntermediateInst::CondSkipPC,
    ], Seq::<ValueTag>::empty()) == Some(Seq::<ValueTag>::empty()),
{
    let p = seq![
        IntermediateInst::RegRead(Register8::Generic(x)),
        IntermediateInst::PushImm(kk),
        IntermediateInst::Equal,
        IntermediateInst::CondSkipPC,
    ];
    let t0 = Seq::<ValueTag>::empty();
    let t1 = t0.push(ValueTag::ByteTag);
    lemma_typed_at(p, 0, t0, t1);
    let t2 = t1.push(ValueTag::ByteTag);
    lemma_typed_at(p, 1, t1, t2);
    let t3 = t2.take(t2.len() - 2).push(ValueTag::BoolTag);
    lemma_typed_at(p, 2, t2, t3);
    let t4 = t3.drop_last();
    lemma_typed_at(p, 3, t3, t4);
    assert(p.skip(4) =~= Seq::<IntermediateInst>::empty());
    assert(t4 =~= Seq::<ValueTag>::empty());
    assert(p.skip(0) == p);
}

/// Typing of the `4xkk` micro-program.
pub proof fn lemma_typed_skip_ne_imm(x: u8, kk: u8)
    requires
        x < 16,
    ensures
        prog_typed(seq![
        IntermediateInst::RegRead(Register8::Generic(x)),
        IntermediateInst::PushImm(kk),
        IntermediateInst::Equal,
        IntermediateInst::BoolNot,
        IntermediateInst::CondSkipPC,
    ], Seq::<ValueTag>::empty()) == Some(Seq::<ValueTag>::empty()),
{
    let p = seq![
        IntermediateInst::RegRead(Register8::Generic(x)),
        IntermediateInst::PushImm(kk),
        IntermediateInst::Equal,
        IntermediateInst::BoolNot,
        IntermediateInst::CondSkipPC,
    ];
    let t0 = Seq::<ValueTag>::empty();
    let t1 = t0.push(ValueTag::ByteTag);
    lemma_typed_at(p, 0, t0, t1);
    let t2 = t1.push(ValueTag::ByteTag);
    lemma_typed_at(p, 1, t1, t2);
    let t3 = t2.take(t2.len() - 2).push(ValueTag::BoolTag);
    lemma_typed_at(p, 2, t2, t3);
    let t4 = t3.drop_last().push(ValueTag::BoolTag);
    lemma_typed_at(p, 3, t3, t4);
    let t5 = t4.drop_last();
    lemma_typed_at(p, 4, t4, t5);
    assert(p.skip(5) =~= Seq::<IntermediateInst>::empty());
    assert(t5 =~= Seq::<ValueTag>::empty());
    assert(p.skip(0) == p);
}

/// Typing of the `5xy0` micro-program.
pub proof fn lemma_typed_skip_eq_reg(x: u8, y: u8)
    requires
        x < 16,
        y < 16,
    ensures
        prog_typed(seq![
        IntermediateInst::RegRead(Register8::Generic(x)),
        IntermediateInst::RegRead(Register8::Generic(y)),
        IntermediateInst::Equal,
        IntermediateInst::CondSkipPC,
    ], Seq::<ValueTag>::empty()) == Some(Seq::<ValueTag>::empty()),
{
    let p = seq![
        IntermediateInst::RegRead(Register8::Generic(x)),
        IntermediateInst::RegRead(Register8::Generic(y)),
        IntermediateInst::Equal,
        IntermediateInst::CondSkipPC,
    ];
    let t0 = Seq::<ValueTag>::empty();
    let t1 = t0.push(ValueTag::ByteTag);
    lemma_typed_at(p, 0, t0, t1);
    let t2 = t1.push(ValueTag::ByteTag);
    lemma_typed_at(p, 1, t1, t2);
    let t3 = t2.take(t2.len() - 2).push(ValueTag::BoolTag);
    lemma_typed_at(p, 2, t2, t3);
    let t4 = t3.drop_last();
    lemma_typed_at(p, 3, t3, t4);
    assert(p.skip(4) =~= Seq::<IntermediateInst>::empty());
    assert(t4 =~= Seq::<ValueTag>::empty());
    assert(p.skip(0) == p);
}

/// Typing of the `6xkk` micro-program.
pub proof fn lemma_typed_load_imm(x: u8, kk: u8)
    requires
        x < 16,
    ensures
        prog_typed(seq![
        IntermediateInst::PushImm(kk),
        IntermediateInst::RegWrite(Register8::Generic(x)),
    ], Seq::<ValueTag>::empty()) == Some(Seq::<ValueTag>::empty()),
{
    let p = seq![
        IntermediateInst::PushImm(kk),
        IntermediateInst::RegWrite(Register8::Generic(x)),
    ];
    let t0 = Seq::<ValueTag>::empty();
    let t1 = t0.push(ValueTag::ByteTag);
    lemma_typed_at(p, 0, t0, t1);
    let t2 = t1.drop_last();
    lemma_typed_at(p, 1, t1, t2);
    assert(p.skip(2) =~= Seq::<IntermediateInst>::empty());
    assert(t2 =~= Seq::<ValueTag>::empty());
    assert(p.skip(0) == p);
}

/// Typing of the `7xkk` micro-program.
pub proof fn lemma_typed_add_imm(x: u8, kk: u8)
    requires
        x < 16,
    ensures
        prog_typed(seq![
        IntermediateInst::RegRead(Register8::Generic(x)),
        IntermediateInst::PushImm(kk),
        IntermediateInst::Add,
        IntermediateInst::RegWrite(Register8::Generic(x)),
    ], Seq::<ValueTag>::empty()) == Some(Seq::<ValueTag>::empty()),
{
    let p = seq![
        IntermediateInst::RegRead(Register8::Generic(x)),
        IntermediateInst::PushImm(kk),
        IntermediateInst::Add,
        IntermediateInst::RegWrite(Register8::Generic(x)),
    ];
    let t0 = Seq::<ValueTag>::empty();
    let t1 = t0.push(ValueTag::ByteTag);
    lemma_typed_at(p, 0, t0, t1);
    let t2 = t1.push(ValueTag::ByteTag);
    lemma_typed_at(p, 1, t1, t2);
    let t3 = t2.take(t2.len() - 2).push(ValueTag::ByteTag);
    lemma_typed_at(p, 2, t2, t3);
    let t4 = t3.drop_last();
    lemma_typed_at(p, 3, t3, t4);
    assert(p.skip(4) =~= Seq::<IntermediateInst>::empty());
    assert(t4 =~= Seq::<ValueTag>::empty());
    assert(p.skip(0) == p);
}

/// Typing of the `8xy0` micro-program.
pub proof fn lemma_typed_alu_move(x: u8, y: u8)
    requires
        x < 16,
        y < 16,
    ensures
        prog_typed(seq![
        IntermediateInst::RegRead(Register8::Generic(y)),
        IntermediateInst::RegWrite(Register8::Generic(x)),
    ], Seq::<ValueTag>::empty()) == Some(Seq::<ValueTag>::empty()),
{
    let p = seq![
        IntermediateInst::RegRead(Register8::Generic(y)),
        IntermediateInst::RegWrite(Register8::Generic(x)),
    ];
    let t0 = Seq::<ValueTag>::empty();
    let t1 = t0.push(ValueTag::ByteTag);
    lemma_typed_at(p, 0, t0, t1);
    let t2 = t1.drop_last();
    lemma_typed_at(p, 1, t1, t2);
    assert(p.skip(2) =~= Seq::<IntermediateInst>::empty());
    assert(t2 =~= Seq::<ValueTag>::empty());
    assert(p.skip(0) == p);
}

/// Typing of the `8xy1`, `8xy2` and `8xy3` micro-programs.
pub proof fn lemma_typed_alu_bin(x: u8, y: u8, op: IntermediateInst)
    requires
        x < 16,
        y < 16,
        op is BOr || op is BAnd || op is BXor,
    ensures
        prog_typed(seq![
            IntermediateInst::RegRead(Register8::Generic(x)),
            IntermediateInst::RegRead(Register8::Generic(y)),
            op,
            IntermediateInst::RegWrite(Register8::Generic(x)),
        ], Seq::<ValueTag>::empty()) == Some(Seq::<ValueTag>::empty()),
{
    let p = seq![
        IntermediateInst::RegRead(Register8::Generic(x)),
        IntermediateInst::RegRead(Register8::Generic(y)),
        op,
        IntermediateInst::RegWrite(Register8::Generic(x)),
    ];
    let t0 = Seq::<ValueTag>::empty();
    let t1 = t0.push(ValueTag::ByteTag);
    lemma_typed_at(p, 0, t0, t1);
    let t2 = t1.push(ValueTag::ByteTag);
    lemma_typed_at(p, 1, t1, t2);
    let t3 = t2.take(t2.len() - 2).push(ValueTag::ByteTag);
    lemma_typed_at(p, 2, t2, t3);
    let t4 = t3.drop_last();
    lemma_typed_at(p, 3, t3, t4);
    assert(p.skip(4) =~= Seq::<IntermediateInst>::empty());
    assert(t4 =~= Seq::<ValueTag>::empty());
    assert(p.skip(0) == p);
}

/// Typing of the `8xy4` micro-program.
pub proof fn lemma_typed_alu_addov(x: u8, y: u8)
    requires
        x < 16,
        y < 16,
    ensures
        prog_typed(seq![
        IntermediateInst::RegRead(Register8::Generic(x)),
        IntermediateInst::RegRead(Register8::Generic(y)),
        IntermediateInst::AddOv,
        IntermediateInst::RegWrite(Register8::Generic(15)),
        IntermediateInst::RegWrite(Register8::Generic(x)),
    ], Seq::<ValueTag>::empty()) == Some(Seq::<ValueTag>::empty()),
{
    let p = seq![
        IntermediateInst::RegRead(Register8::Generic(x)),
        IntermediateInst::RegRead(Register8::Generic(y)),
        IntermediateInst::AddOv,
        IntermediateInst::RegWrite(Register8::Generic(15)),
        IntermediateInst::RegWrite(Register8::Generic(x)),
    ];
    let t0 = Seq::<ValueTag>::empty();
    let t1 = t0.push(ValueTag::ByteTag);
    lemma_typed_at(p, 0, t0, t1);
    let t2 = t1.push(ValueTag::ByteTag);
    lemma_typed_at(p, 1, t1, t2);
    let t3 = t2.take(t2.len() - 2).push(ValueTag::ByteTag).push(ValueTag::BoolTag);
    lemma_typed_at(p, 2, t2, t3);
    let t4 = t3.drop_last();
    lemma_typed_at(p, 3, t3, t4);
    let t5 = t4.drop_last();
    lemma_typed_at(p, 4, t4, t5);
    assert(p.skip(5) =~= Seq::<IntermediateInst>::empty());
    assert(t5 =~= Seq::<ValueTag>::empty());
    assert(p.skip(0) == p);
}

/// Typing of the `8xy5` and `8xy7` micro-programs.
pub proof fn lemma_typed_alu_subov(a: u8, b: u8, c: u8)
    requires
        a < 16,
        b < 16,
        c < 16,
    ensures
        prog_typed(seq![
        IntermediateInst::RegRead(Register8::Generic(a)),
        IntermediateInst::RegRead(Register8::Generic(b)),
        IntermediateInst::Neg,
        IntermediateInst::AddOv,
        IntermediateInst::RegWrite(Register8::Generic(15)),
        IntermediateInst::RegWrite(Register8::Generic(c)),
    ], Seq::<ValueTag>::empty()) == Some(Seq::<ValueTag>::empty()),
{
    let p = seq![
        IntermediateInst::RegRead(Register8::Generic(a)),
        IntermediateInst::RegRead(Register8::Generic(b)),
        IntermediateInst::Neg,
        IntermediateInst::AddOv,
        IntermediateInst::RegWrite(Register8::Generic(15)),
        IntermediateInst::RegWrite(Register8::Generic(c)),
    ];
    let t0 = Seq::<ValueTag>::empty();
    let t1 = t0.push(ValueTag::ByteTag);
    lemma_typed_at(p, 0, t0, t1);
    let t2 = t1.push(ValueTag::ByteTag);
    lemma_typed_at(p, 1, t1, t2);
    let t3 = t2.drop_last().push(ValueTag::ByteTag);
    lemma_typed_at(p, 2, t2, t3);
    let t4 = t3.take(t3.len() - 2).push(ValueTag::ByteTag).push(ValueTag::BoolTag);
    lemma_typed_at(p, 3, t3, t4);
    let t5 = t4.drop_last();
    lemma_typed_at(p, 4, t4, t5);
    let t6 = t5.drop_last();
    lemma_typed_at(p, 5, t5, t6);
    assert(p.skip(6) =~= Seq::<IntermediateInst>::empty());
    assert(t6 =~= Seq::<ValueTag>::empty());
    assert(p.skip(0) == p);
}

/// Typing of the `8xy6` and `8xyE` micro-programs.
pub proof fn lemma_typed_alu_shift(x: u8, op: IntermediateInst)
    requires
        x < 16,
        op is BShrOv || op is BShlOv,
    ensures
        prog_typed(seq![
            IntermediateInst::RegRead(Register8::Generic(x)),
            op,
            IntermediateInst::RegWrite(Register8::Generic(15)),
            IntermediateInst::RegWrite(Register8::Generic(x)),
        ], Seq::<ValueTag>::empty()) == Some(Seq::<ValueTag>::empty()),
{
    let p = seq![
        IntermediateInst::RegRead(Register8::Generic(x)),
        op,
        IntermediateInst::RegWrite(Register8::Generic(15)),
        IntermediateInst::RegWrite(Register8::Generic(x)),
    ];
    let t0 = Seq::<ValueTag>::empty();
    let t1 = t0.push(ValueTag::ByteTag);
    lemma_typed_at(p, 0, t0, t1);
    let t2 = t1.drop_last().push(ValueTag::ByteTag).push(ValueTag::BoolTag);
    lemma_typed_at(p, 1, t1, t2);
    let t3 = t2.drop_last();
    lemma_typed_at(p, 2, t2, t3);
    let t4 = t3.drop_last();
    lemma_typed_at(p, 3, t3, t4);
    assert(p.skip(4) =~= Seq::<IntermediateInst>::empty());
    assert(t4 =~= Seq::<ValueTag>::empty());
    assert(p.skip(0) == p);
}

/// Typing of the `9xy0` micro-program.
pub proof fn lemma_typed_skip_ne_reg(x: u8, y: u8)
    requires
        x < 16,
        y < 16,
    ensures
        prog_typed(seq![
        IntermediateInst::RegRead(Register8::Generic(x)),
        IntermediateInst::RegRead(Register8::Generic(y)),
        IntermediateInst::Equal,
        IntermediateInst::BoolNot,
        IntermediateInst::CondSkipPC,
    ], Seq::<ValueTag>::empty()) == Some(Seq::<ValueTag>::empty()),
{
    let p = seq![
        IntermediateInst::RegRead(Register8::Generic(x)),
        IntermediateInst::RegRead(Register8::Generic(y)),
        IntermediateInst::Equal,
        IntermediateInst::BoolNot,
        IntermediateInst::CondSkipPC,
    ];
    let t0 = Seq::<ValueTag>::empty();
    let t1 = t0.push(ValueTag::ByteTag);
    lemma_typed_at(p, 0, t0, t1);
    let t2 = t1.push(ValueTag::ByteTag);
    lemma_typed_at(p, 1, t1, t2);
    let t3 = t2.take(t2.len() - 2).push(ValueTag::BoolTag);
    lemma_typed_at(p, 2, t2, t3);
    let t4 = t3.drop_last().push(ValueTag::BoolTag);
    lemma_typed_at(p, 3, t3, t4);
    let t5 = t4.drop_last();
    lemma_typed_at(p, 4, t4, t5);
    assert(p.skip(5) =~= Seq::<IntermediateInst>::empty());
    assert(t5 =~= Seq::<ValueTag>::empty());
    assert(p.skip(0) == p);
}

/// Typing of the `Annn` micro-program.
pub proof fn lemma_typed_seti(nnn: u16)
    ensures
        prog_typed(seq![
        IntermediateInst::PushImm16(nnn),
        IntermediateInst::SetI,
    ], Seq::<ValueTag>::empty()) == Some(Seq::<ValueTag>::empty()),
{
    let p = seq![
        IntermediateInst::PushImm16(nnn),
        IntermediateInst::SetI,
    ];
    let t0 = Seq::<ValueTag>::empty();
    let t1 = t0.push(ValueTag::AddrTag);
    lemma_typed_at(p, 0, t0, t1);
    let t2 = t1.drop_last();
    lemma_typed_at(p, 1, t1, t2);
    assert(p.skip(2) =~= Seq::<IntermediateInst>::empty());
    assert(t2 =~= Seq::<ValueTag>::empty());
    assert(p.skip(0) == p);
}

/// Typing of the `Bnnn` micro-program.
pub proof fn lemma_typed_jump0(nnn: u16)
    ensures
        prog_typed(seq![
        IntermediateInst::PushImm16(nnn),
        IntermediateInst::OffsetPC,
    ], Seq::<ValueTag>::empty()) == Some(Seq::<ValueTag>::empty()),
{
    let p = seq![
        IntermediateInst::PushImm16(nnn),
        IntermediateInst::OffsetPC,
    ];
    let t0 = Seq::<ValueTag>::empty();
    let t1 = t0.push(ValueTag::AddrTag);
    lemma_typed_at(p, 0, t0, t1);
    let t2 = t1.drop_last();
    lemma_typed_at(p, 1, t1, t2);
    assert(p.skip(2) =~= Seq::<IntermediateInst>::empty());
    assert(t2 =~= Seq::<ValueTag>::empty());
    assert(p.skip(0) == p);
}

/// Typing of the `Cxkk` micro-program.
pub proof fn lemma_typed_rand(x: u8, kk: u8)
    requires
        x < 16,
    ensures
        prog_typed(seq![
        IntermediateInst::Rand,
        IntermediateInst::PushImm(kk),
        IntermediateInst::BAnd,
        IntermediateInst::RegWrite(Register8::Generic(x)),
    ], Seq::<ValueTag>::empty()) == Some(Seq::<ValueTag>::empty()),
{
    let p = seq![
        IntermediateInst::Rand,
        IntermediateInst::PushImm(kk),
        IntermediateInst::BAnd,
        IntermediateInst::RegWrite(Register8::Generic(x)),
    ];
    let t0 = Seq::<ValueTag>::empty();
    let t1 = t0.push(ValueTag::ByteTag);
    lemma_typed_at(p, 0, t0, t1);
    let t2 = t1.push(ValueTag::ByteTag);
    lemma_typed_at(p, 1, t1, t2);
    let t3 = t2.take(t2.len() - 2).push(ValueTag::ByteTag);
    lemma_typed_at(p, 2, t2, t3);
    let t4 = t3.drop_last();
    lemma_typed_at(p, 3, t3, t4);
    assert(p.skip(4) =~= Seq::<IntermediateInst>::empty());
    assert(t4 =~= Seq::<ValueTag>::empty());
    assert(p.skip(0) == p);
}

/// Typing of the `Ex9E` micro-program.
pub proof fn lemma_typed_skip_key(x: u8)
    requires
        x < 16,
    ensures
        prog_typed(seq![
        IntermediateInst::RegRead(Register8::Generic(x)),
        IntermediateInst::KeyPressed,
        IntermediateInst::CondSkipPC,
    ], Seq::<ValueTag>::empty()) == Some(Seq::<ValueTag>::empty()),
{
    let p = seq![
        IntermediateInst::RegRead(Register8::Generic(x)),
        IntermediateInst::KeyPressed,
        IntermediateInst::CondSkipPC,
    ];
    let t0 = Seq::<ValueTag>::empty();
    let t1 = t0.push(ValueTag::ByteTag);
    lemma_typed_at(p, 0, t0, t1);
    let t2 = t1.drop_last().push(ValueTag::BoolTag);
    lemma_typed_at(p, 1, t1, t2);
    let t3 = t2.drop_last();
    lemma_typed_at(p, 2, t2, t3);
    assert(p.skip(3) =~= Seq::<IntermediateInst>::empty());
    assert(t3 =~= Seq::<ValueTag>::empty());
    assert(p.skip(0) == p);
}

/// Typing of the `ExA1` micro-program.
pub proof fn lemma_typed_skip_nokey(x: u8)
    requires
        x < 16,
    ensures
        prog_typed(seq![
        IntermediateInst::RegRead(Register8::Generic(x)),
        IntermediateInst::KeyPressed,
        IntermediateInst::BoolNot,
        IntermediateInst::CondSkipPC,
    ], Seq::<ValueTag>::empty()) == Some(Seq::<ValueTag>::empty()),
{
    let p = seq![
        IntermediateInst::RegRead(Register8::Generic(x)),
        IntermediateInst::KeyPressed,
        IntermediateInst::BoolNot,
        IntermediateInst::CondSkipPC,
    ];
    let t0 = Seq::<ValueTag>::empty();
    let t1 = t0.push(ValueTag::ByteTag);
    lemma_typed_at(p, 0, t0, t1);
    let t2 = t1.drop_last().push(ValueTag::BoolTag);
    lemma_typed_at(p, 1, t1, t2);
    let t3 = t2.drop_last().push(ValueTag::BoolTag);
    lemma_typed_at(p, 2, t2, t3);
    let t4 = t3.drop_last();
    lemma_typed_at(p, 3, t3, t4);
    assert(p.skip(4) =~= Seq::<IntermediateInst>::empty());
    assert(t4 =~= Seq::<ValueTag>::empty());
    assert(p.skip(0) == p);
}

/// Typing of the `Fx07` micro-program.
pub proof fn lemma_typed_read_delay(x: u8)
    requires
        x < 16,
    ensures
        prog_typed(seq![
        IntermediateInst::RegRead(Register8::DelayTimer),
        IntermediateInst::RegWrite(Register8::Generic(x)),
    ], Seq::<ValueTag>::empty()) == Some(Seq::<ValueTag>::empty()),
{
    let p = seq![
        IntermediateInst::RegRead(Register8::DelayTimer),
        IntermediateInst::RegWrite(Register8::Generic(x)),
    ];
    let t0 = Seq::<ValueTag>::empty();
    let t1 = t0.push(ValueTag::ByteTag);
    lemma_typed_at(p, 0, t0, t1);
    let t2 = t1.drop_last();
    lemma_typed_at(p, 1, t1, t2);
    assert(p.skip(2) =~= Seq::<IntermediateInst>::empty());
    assert(t2 =~= Seq::<ValueTag>::empty());
    assert(p.skip(0) == p);
}

/// Typing of the `Fx0A` micro-program.
pub proof fn lemma_typed_wait_key(x: u8)
    requires
        x < 16,
    ensures
        prog_typed(seq![
        IntermediateInst::WaitForKeypress,
        IntermediateInst::RegWrite(Register8::Generic(x)),
    ], Seq::<ValueTag>::empty()) == Some(Seq::<ValueTag>::empty()),
{
    let p = seq![
        IntermediateInst::WaitForKeypress,
        IntermediateInst::RegWrite(Register8::Generic(x)),
    ];
    let t0 = Seq::<ValueTag>::empty();
    let t1 = t0.push(ValueTag::ByteTag);
    lemma_typed_at(p, 0, t0, t1);
    let t2 = t1.drop_last();
    lemma_typed_at(p, 1, t1, t2);
    assert(p.skip(2) =~= Seq::<IntermediateInst>::empty());
    assert(t2 =~= Seq::<ValueTag>::empty());
    assert(p.skip(0) == p);
}

/// Typing of the `Fx15` and `Fx18` micro-programs.
pub proof fn lemma_typed_write_timer(x: u8, r: Register8)
    requires
        x < 16,
        r is DelayTimer || r is SoundTimer,
    ensures
        prog_typed(seq![
            IntermediateInst::RegRead(Register8::Generic(x)),
            IntermediateInst::RegWrite(r),
        ], Seq::<ValueTag>::empty()) == Some(Seq::<ValueTag>::empty()),
{
    let p = seq![
        IntermediateInst::RegRead(Register8::Generic(x)),
        IntermediateInst::RegWrite(r),
    ];
    let t0 = Seq::<ValueTag>::empty();
    let t1 = t0.push(ValueTag::ByteTag);
    lemma_typed_at(p, 0, t0, t1);
    let t2 = t1.drop_last();
    lemma_typed_at(p, 1, t1, t2);
    assert(p.skip(2) =~= Seq::<IntermediateInst>::empty());
    assert(t2 =~= Seq::<ValueTag>::empty());
    assert(p.skip(0) == p);
}

/// Typing of the `Fx1E` micro-program.
pub proof fn lemma_typed_add_i(x: u8)
    requires
        x < 16,
    ensures
        prog_typed(seq![
        IntermediateInst::GetI,
        IntermediateInst::RegRead(Register8::Generic(x)),
        IntermediateInst::AddOffset,
        IntermediateInst::SetI,
    ], Seq::<ValueTag>::empty()) == Some(Seq::<ValueTag>::empty()),
{
    let p = seq![
        IntermediateInst::GetI,
        IntermediateInst::RegRead(Register8::Generic(x)),
        IntermediateInst::AddOffset,
        IntermediateInst::SetI,
    ];
    let t0 = Seq::<ValueTag>::empty();
    let t1 = t0.push(ValueTag::AddrTag);
    lemma_typed_at(p, 0, t0, t1);
    let t2 = t1.push(ValueTag::ByteTag);
    lemma_typed_at(p, 1, t1, t2);
    let t3 = t2.take(t2.len() - 2).push(ValueTag::AddrTag);
    lemma_typed_at(p, 2, t2, t3);
    let t4 = t3.drop_last();
    lemma_typed_at(p, 3, t3, t4);
    assert(p.skip(4) =~= Seq::<IntermediateInst>::empty());
    assert(t4 =~= Seq::<ValueTag>::empty());
    assert(p.skip(0) == p);
}

/// Typing of the `Fx29` micro-program.
pub proof fn lemma_typed_glyph(x: u8)
    requires
        x < 16,
    ensures
        prog_typed(seq![
        IntermediateInst::RegRead(Register8::Generic(x)),
        IntermediateInst::HexCharAddr,
        IntermediateInst::SetI,
    ], Seq::<ValueTag>::empty()) == Some(Seq::<ValueTag>::empty()),
{
    let p = seq![
        IntermediateInst::RegRead(Register8::Generic(x)),
        IntermediateInst::HexCharAddr,
        IntermediateInst::SetI,
    ];
    let t0 = Seq::<ValueTag>::empty();
    let t1 = t0.push(ValueTag::ByteTag);
    lemma_typed_at(p, 0, t0, t1);
    let t2 = t1.drop_last().push(ValueTag::AddrTag);
    lemma_typed_at(p, 1, t1, t2);
    let t3 = t2.drop_last();
    lemma_typed_at(p, 2, t2, t3);
    assert(p.skip(3) =~= Seq::<IntermediateInst>::empty());
    assert(t3 =~= Seq::<ValueTag>::empty());
    assert(p.skip(0) == p);
}

/// Typing of the `Fx33` micro-program.
pub proof fn lemma_typed_bcd(x: u8)
    requires
        x < 16,
    ensures
        prog_typed(seq![
        IntermediateInst::RegRead(Register8::Generic(x)),
        IntermediateInst::DivMod10,
        IntermediateInst::GetI,
        IntermediateInst::PushImm(2),
        IntermediateInst::AddOffset,
        IntermediateInst::Swap2,
        IntermediateInst::MemWrite,
        IntermediateInst::DivMod10,
        IntermediateInst::GetI,
        IntermediateInst::PushImm(1),
        IntermediateInst::AddOffset,
        IntermediateInst::Swap2,
        IntermediateInst::MemWrite,
        IntermediateInst::GetI,
        IntermediateInst::Swap2,
        IntermediateInst::MemWrite,
    ], Seq::<ValueTag>::empty()) == Some(Seq::<ValueTag>::empty()),
{
    let p = seq![
        IntermediateInst::RegRead(Register8::Generic(x)),
        IntermediateInst::DivMod10,
        IntermediateInst::GetI,
        IntermediateInst::PushImm(2),
        IntermediateInst::AddOffset,
        IntermediateInst::Swap2,
        IntermediateInst::MemWrite,
        IntermediateInst::DivMod10,
        IntermediateInst::GetI,
        IntermediateInst::PushImm(1),
        IntermediateInst::AddOffset,
        IntermediateInst::Swap2,
        IntermediateInst::MemWrite,
        IntermediateInst::GetI,
        IntermediateInst::Swap2,
        IntermediateInst::MemWrite,
    ];
    let t0 = Seq::<ValueTag>::empty();
    let t1 = t0.push(ValueTag::ByteTag);
    lemma_typed_at(p, 0, t0, t1);
    let t2 = t1.drop_last().push(ValueTag::ByteTag).push(ValueTag::ByteTag);
    lemma_typed_at(p, 1, t1, t2);
    let t3 = t2.push(ValueTag::AddrTag);
    lemma_typed_at(p, 2, t2, t3);
    let t4 = t3.push(ValueTag::ByteTag);
    lemma_typed_at(p, 3, t3, t4);
    let t5 = t4.take(t4.len() - 2).push(ValueTag::AddrTag);
    lemma_typed_at(p, 4, t4, t5);
    let t6 = t5.update(t5.len() - 2, t5[t5.len() - 1]).update(t5.len() - 1, t5[t5.len() - 2]);
    lemma_typed_at(p, 5, t5, t6);
    let t7 = t6.take(t6.len() - 2);
    lemma_typed_at(p, 6, t6, t7);
    let t8 = t7.drop_last().push(ValueTag::ByteTag).push(ValueTag::ByteTag);
    lemma_typed_at(p, 7, t7, t8);
    let t9 = t8.push(ValueTag::AddrTag);
    lemma_typed_at(p, 8, t8, t9);
    let t10 = t9.push(ValueTag::ByteTag);
    lemma_typed_at(p, 9, t9, t10);
    let t11 = t10.take(t10.len() - 2).push(ValueTag::AddrTag);
    lemma_typed_at(p, 10, t10, t11);
    let t12 = t11.update(t11.len() - 2, t11[t11.len() - 1]).update(t11.len() - 1, t11[t11.len() - 2]);
    lemma_typed_at(p, 11, t11, t12);
    let t13 = t12.take(t12.len() - 2);
    lemma_typed_at(p, 12, t12, t13);
    let t14 = t13.push(ValueTag::AddrTag);
    lemma_typed_at(p, 13, t13, t14);
    let t15 = t14.update(t14.len() - 2, t14[t14.len() - 1]).update(t14.len() - 1, t14[t14.len() - 2]);
    lemma_typed_at(p, 14, t14, t15);
    let t16 = t15.take(t15.len() - 2);
    lemma_typed_at(p, 15, t15, t16);
    assert(p.skip(16) =~= Seq::<IntermediateInst>::empty());
    assert(t16 =~= Seq::<ValueTag>::empty());
    assert(p.skip(0) == p);
}

/// Typing of one `Fx55` step.
pub proof fn lemma_typed_store_one(i: u8)
    requires
        i < 16,
    ensures
        prog_typed(seq![
        IntermediateInst::GetI,
        IntermediateInst::RegRead(Register8::Generic(i)),
        IntermediateInst::MemWrite,
        IntermediateInst::GetI,
        IntermediateInst::PushImm(1),
        IntermediateInst::AddOffset,
        IntermediateInst::SetI,
    ], Seq::<ValueTag>::empty()) == Some(Seq::<ValueTag>::empty()),
{
    let p = seq![
        IntermediateInst::GetI,
        IntermediateInst::RegRead(Register8::Generic(i)),
        IntermediateInst::MemWrite,
        IntermediateInst::GetI,
        IntermediateInst::PushImm(1),
        IntermediateInst::AddOffset,
        IntermediateInst::SetI,
    ];
    let t0 = Seq::<ValueTag>::empty();
    let t1 = t0.push(ValueTag::AddrTag);
    lemma_typed_at(p, 0, t0, t1);
    let t2 = t1.push(ValueTag::ByteTag);
    lemma_typed_at(p, 1, t1, t2);
    let t3 = t2.take(t2.len() - 2);
    lemma_typed_at(p, 2, t2, t3);
    let t4 = t3.push(ValueTag::AddrTag);
    lemma_typed_at(p, 3, t3, t4);
    let t5 = t4.push(ValueTag::ByteTag);
    lemma_typed_at(p, 4, t4, t5);
    let t6 = t5.take(t5.len() - 2).push(ValueTag::AddrTag);
    lemma_typed_at(p, 5, t5, t6);
    let t7 = t6.drop_last();
    lemma_typed_at(p, 6, t6, t7);
    assert(p.skip(7) =~= Seq::<IntermediateInst>::empty());
    assert(t7 =~= Seq::<ValueTag>::empty());
    assert(p.skip(0) == p);
}

/// Typing of one `Fx65` step.
pub proof fn lemma_typed_load_one(i: u8)
    requires
        i < 16,
    ensures
        prog_typed(seq![
        IntermediateInst::GetI,
        IntermediateInst::MemRead,
        IntermediateInst::RegWrite(Register8::Generic(i)),
        IntermediateInst::GetI,
        IntermediateInst::PushImm(1),
        IntermediateInst::AddOffset,
        IntermediateInst::SetI,
    ], Seq::<ValueTag>::empty()) == Some(Seq::<ValueTag>::empty()),
{
    let p = seq![
        IntermediateInst::GetI,
        IntermediateInst::MemRead,
        IntermediateInst::RegWrite(Register8::Generic(i)),
        IntermediateInst::GetI,
        IntermediateInst::PushImm(1),
        IntermediateInst::AddOffset,
        IntermediateInst::SetI,
    ];
    let t0 = Seq::<ValueTag>::empty();
    let t1 = t0.push(ValueTag::AddrTag);
    lemma_typed_at(p, 0, t0, t1);
    let t2 = t1.drop_last().push(ValueTag::ByteTag);
    lemma_typed_at(p, 1, t1, t2);
    let t3 = t2.drop_last();
    lemma_typed_at(p, 2, t2, t3);
    let t4 = t3.push(ValueTag::AddrTag);
    lemma_typed_at(p, 3, t3, t4);
    let t5 = t4.push(ValueTag::ByteTag);
    lemma_typed_at(p, 4, t4, t5);
    let t6 = t5.take(t5.len() - 2).push(ValueTag::AddrTag);
    lemma_typed_at(p, 5, t5, t6);
    let t7 = t6.drop_last();
    lemma_typed_at(p, 6, t6, t7);
    assert(p.skip(7) =~= Seq::<IntermediateInst>::empty());
    assert(t7 =~= Seq::<ValueTag>::empty());
    assert(p.skip(0) == p);
}

/// Typing of the first sprite row's micro-operations.
pub proof fn lemma_typed_draw_row0(x: u8, y: u8)
    requires
        x < 16,
        y < 16,
    ensures
        prog_typed(seq![
        IntermediateInst::RegRead(Register8::Generic(x)),
        IntermediateInst::RegRead(Register8::Generic(y)),
        IntermediateInst::GetI,
        IntermediateInst::MemRead,
        IntermediateInst::WriteScreen,
        IntermediateInst::BoolOr,
    ], seq![ValueTag::ByteTag, ValueTag::ByteTag, ValueTag::BoolTag]) == Some(seq![ValueTag::ByteTag, ValueTag::ByteTag, ValueTag::BoolTag]),
{
    let p = seq![
        IntermediateInst::RegRead(Register8::Generic(x)),
        IntermediateInst::RegRead(Register8::Generic(y)),
        IntermediateInst::GetI,
        IntermediateInst::MemRead,
        IntermediateInst::WriteScreen,
        IntermediateInst::BoolOr,
    ];
    let t0 = seq![ValueTag::ByteTag, ValueTag::ByteTag, ValueTag::BoolTag];
    let t1 = t0.push(ValueTag::ByteTag);
    lemma_typed_at(p, 0, t0, t1);
    let t2 = t1.push(ValueTag::ByteTag);
    lemma_typed_at(p, 1, t1, t2);
    let t3 = t2.push(ValueTag::AddrTag);
    lemma_typed_at(p, 2, t2, t3);
    let t4 = t3.drop_last().push(ValueTag::ByteTag);
    lemma_typed_at(p, 3, t3, t4);
    let t5 = t4.take(t4.len() - 3).push(ValueTag::BoolTag);
    lemma_typed_at(p, 4, t4, t5);
    let t6 = t5.take(t5.len() - 2).push(ValueTag::BoolTag);
    lemma_typed_at(p, 5, t5, t6);
    assert(p.skip(6) =~= Seq::<IntermediateInst>::empty());
    assert(t6 =~= seq![ValueTag::ByteTag, ValueTag::ByteTag, ValueTag::BoolTag]);
    assert(p.skip(0) == p);
}

/// Typing of a later sprite row's micro-operations.
pub proof fn lemma_typed_draw_rowi(x: u8, y: u8, i: u8)
    requires
        x < 16,
        y < 16,
    ensures
        prog_typed(seq![
        IntermediateInst::RegRead(Register8::Generic(x)),
        IntermediateInst::RegRead(Register8::Generic(y)),
        IntermediateInst::PushImm(i),
        IntermediateInst::Add,
        IntermediateInst::GetI,
        IntermediateInst::PushImm(i),
        IntermediateInst::AddOffset,
        IntermediateInst::MemRead,
        IntermediateInst::WriteScreen,
        IntermediateInst::BoolOr,
    ], seq![ValueTag::ByteTag, ValueTag::ByteTag, ValueTag::BoolTag]) == Some(seq![ValueTag::ByteTag, ValueTag::ByteTag, ValueTag::BoolTag]),
{
    let p = seq![
        IntermediateInst::RegRead(Register8::Generic(x)),
        IntermediateInst::RegRead(Register8::Generic(y)),
        IntermediateInst::PushImm(i),
        IntermediateInst::Add,
        IntermediateInst::GetI,
        IntermediateInst::PushImm(i),
        IntermediateInst::AddOffset,
        IntermediateInst::MemRead,
        IntermediateInst::WriteScreen,
        IntermediateInst::BoolOr,
    ];
    let t0 = seq![ValueTag::ByteTag, ValueTag::ByteTag, ValueTag::BoolTag];
    let t1 = t0.push(ValueTag::ByteTag);
    lemma_typed_at(p, 0, t0, t1);
    let t2 = t1.push(ValueTag::ByteTag);
    lemma_typed_at(p, 1, t1, t2);
    let t3 = t2.push(ValueTag::ByteTag);
    lemma_typed_at(p, 2, t2, t3);
    let t4 = t3.take(t3.len() - 2).push(ValueTag::ByteTag);
    lemma_typed_at(p, 3, t3, t4);
    let t5 = t4.push(ValueTag::AddrTag);
    lemma_typed_at(p, 4, t4, t5);
    let t6 = t5.push(ValueTag::ByteTag);
    lemma_typed_at(p, 5, t5, t6);
    let t7 = t6.take(t6.len() - 2).push(ValueTag::AddrTag);
    lemma_typed_at(p, 6, t6, t7);
    let t8 = t7.drop_last().push(ValueTag::ByteTag);
    lemma_typed_at(p, 7, t7, t8);
    let t9 = t8.take(t8.len() - 3).push(ValueTag::BoolTag);
    lemma_typed_at(p, 8, t8, t9);
    let t10 = t9.take(t9.len() - 2).push(ValueTag::BoolTag);
    lemma_typed_at(p, 9, t9, t10);
    assert(p.skip(10) =~= Seq::<IntermediateInst>::empty());
    assert(t10 =~= seq![ValueTag::ByteTag, ValueTag::ByteTag, ValueTag::BoolTag]);
    assert(p.skip(0) == p);
}

/// Typing of the draw micro-program's prefix.
pub proof fn lemma_typed_draw_prefix()
    ensures
        prog_typed(seq![
        IntermediateInst::PushImm(1),
        IntermediateInst::PushImm(0),
        IntermediateInst::False,
    ], Seq::<ValueTag>::empty()) == Some(seq![ValueTag::ByteTag, ValueTag::ByteTag, ValueTag::BoolTag]),
{
    let p = seq![
        IntermediateInst::PushImm(1),
        IntermediateInst::PushImm(0),
        IntermediateInst::False,
    ];
    let t0 = Seq::<ValueTag>::empty();
    let t1 = t0.push(ValueTag::ByteTag);
    lemma_typed_at(p, 0, t0, t1);
    let t2 = t1.push(ValueTag::ByteTag);
    lemma_typed_at(p, 1, t1, t2);
    let t3 = t2.push(ValueTag::BoolTag);
    lemma_typed_at(p, 2, t2, t3);
    assert(p.skip(3) =~= Seq::<IntermediateInst>::empty());
    assert(t3 =~= seq![ValueTag::ByteTag, ValueTag::ByteTag, ValueTag::BoolTag]);
    assert(p.skip(0) == p);
}

/// Typing of the draw micro-program's suffix.
pub proof fn lemma_typed_draw_suffix()
    ensures
        prog_typed(seq![
        IntermediateInst::Select,
        IntermediateInst::RegWrite(Register8::Generic(15)),
    ], seq![ValueTag::ByteTag, ValueTag::ByteTag, ValueTag::BoolTag]) == Some(Seq::<ValueTag>::empty()),
{
    let p = seq![
        IntermediateInst::Select,
        IntermediateInst::RegWrite(Register8::Generic(15)),
    ];
    let t0 = seq![ValueTag::ByteTag, ValueTag::ByteTag, ValueTag::BoolTag];
    let t1 = t0.take(t0.len() - 3).push(ValueTag::ByteTag);
    lemma_typed_at(p, 0, t0, t1);
    let t2 = t1.drop_last();
    lemma_typed_at(p, 1, t1, t2);
    assert(p.skip(2) =~= Seq::<IntermediateInst>::empty());
    assert(t2 =~= Seq::<ValueTag>::empty());
    assert(p.skip(0) == p);
}

/// Typing of the first `k` steps of `Fx55`, by induction on `k`.
pub proof fn lemma_typed_store(k: nat)
    requires
        k <= 16,
    ensures
        prog_typed(store_ops(k), Seq::<ValueTag>::empty()) == Some(Seq::<ValueTag>::empty()),
        no_ret(store_ops(k)),
    decreases k,
{
    if k == 0 {
        assert(store_ops(0) =~= Seq::<IntermediateInst>::empty());
    } else {
        lemma_typed_store((k - 1) as nat);
        lemma_typed_store_one((k - 1) as u8);
        lemma_prog_typed_app(store_ops((k - 1) as nat), store_one_ops((k - 1) as u8),
            Seq::<ValueTag>::empty());
        assert(no_ret(store_one_ops((k - 1) as u8)));
        lemma_no_ret_app(store_ops((k - 1) as nat), store_one_ops((k - 1) as u8));
    }
}

/// Typing of the first `k` steps of `Fx65`, by induction on `k`.
pub proof fn lemma_typed_load(k: nat)
    requires
        k <= 16,
    ensures
        prog_typed(load_ops(k), Seq::<ValueTag>::empty()) == Some(Seq::<ValueTag>::empty()),
        no_ret(load_ops(k)),
    decreases k,
{
    if k == 0 {
        assert(load_ops(0) =~= Seq::<IntermediateInst>::empty());
    } else {
        lemma_typed_load((k - 1) as nat);
        lemma_typed_load_one((k - 1) as u8);
        lemma_prog_typed_app(load_ops((k - 1) as nat), load_one_ops((k - 1) as u8),
            Seq::<ValueTag>::empty());
        assert(no_ret(load_one_ops((k - 1) as u8)));
        lemma_no_ret_app(load_ops((k - 1) as nat), load_one_ops((k - 1) as u8));
    }
}

/// Typing of the first `k` sprite rows, by induction on `k`.
pub proof fn lemma_typed_draw_rows(x: u8, y: u8, k: nat)
    requires
        x < 16,
        y < 16,
    ensures
        prog_typed(draw_rows_ops(x, y, k),
            seq![ValueTag::ByteTag, ValueTag::ByteTag, ValueTag::BoolTag])
            == Some(seq![ValueTag::ByteTag, ValueTag::ByteTag, ValueTag::BoolTag]),
        no_ret(draw_rows_ops(x, y, k)),
    decreases k,
{
    let tbbb = seq![ValueTag::ByteTag, ValueTag::ByteTag, ValueTag::BoolTag];
    if k == 0 {
        assert(draw_rows_ops(x, y, 0) =~= Seq::<IntermediateInst>::empty());
    } else {
        let i = (k - 1) as u8;
        lemma_typed_draw_rows(x, y, (k - 1) as nat);
        if i == 0 {
            lemma_typed_draw_row0(x, y);
        } else {
            lemma_typed_draw_rowi(x, y, i);
        }
        lemma_prog_typed_app(draw_rows_ops(x, y, (k - 1) as nat), draw_row_ops(x, y, i), tbbb);
        assert(no_ret(draw_row_ops(x, y, i)));
        lemma_no_ret_app(draw_rows_ops(x, y, (k - 1) as nat), draw_row_ops(x, y, i));
    }
}

/// Typing of the whole `Dxyn` micro-program.
pub proof fn lemma_typed_draw(x: u8, y: u8, rows: u8)
    requires
        x < 16,
        y < 16,
    ensures
        prog_typed(draw_prog(x, y, rows), Seq::<ValueTag>::empty())
            == Some(Seq::<ValueTag>::empty()),
        no_ret(draw_prog(x, y, rows)),
    decreases rows,
{
    let tbbb = seq![ValueTag::ByteTag, ValueTag::ByteTag, ValueTag::BoolTag];
    let prefix = seq![
        IntermediateInst::PushImm(1),
        IntermediateInst::PushImm(0),
        IntermediateInst::False,
    ];
    let suffix = seq![
        IntermediateInst::Select,
        IntermediateInst::RegWrite(Register8::Generic(15)),
    ];
    let mid = draw_rows_ops(x, y, rows as nat);
    lemma_typed_draw_prefix();
    lemma_typed_draw_rows(x, y, rows as nat);
    lemma_typed_draw_suffix();
    lemma_prog_typed_app(prefix, mid, Seq::<ValueTag>::empty());
    lemma_prog_typed_app(prefix + mid, suffix, Seq::<ValueTag>::empty());
    assert(no_ret(prefix));
    assert(no_ret(suffix));
    lemma_no_ret_app(prefix, mid);
    lemma_no_ret_app(prefix + mid, suffix);
    assert(draw_prog(x, y, rows) == prefix + mid + suffix);
}

/// Every decoded micro-program types from the empty operand stack back to
/// the empty operand stack, and only the micro-program of `00EE` holds a
/// `Ret`.
pub proof fn lemma_decode_ok(inst: u16)
    requires
        decode(inst) is Some,
    ensures
        prog_typed(decode(inst)->0, Seq::<ValueTag>::empty()) == Some(Seq::<ValueTag>::empty()),
        inst == 0x00EE ==> decode(inst)->0 == seq![IntermediateInst::Ret],
        inst != 0x00EE ==> no_ret(decode(inst)->0),
{
    lemma_nibbles(inst);
    let n1 = inst >> 12;
    let x = ((inst >> 8) & 0xf) as u8;
    let y = ((inst >> 4) & 0xf) as u8;
    let n4 = inst & 0xf;
    let kk = (inst & 0xff) as u8;
    let nnn = inst & 0xfff;
    let p = decode(inst)->0;
    if inst == 0x00E0 {
        lemma_typed_clear();
        assert(no_ret(p));
    } else if inst == 0x00EE {
        lemma_typed_ret();
    } else if n1 == 0x1 {
        lemma_typed_jump(nnn);
        assert(no_ret(p));
    } else if n1 == 0x2 {
        lemma_typed_call(nnn);
        assert(no_ret(p));
    } else if n1 == 0x3 {
        lemma_typed_skip_eq_imm(x, kk);
        assert(no_ret(p));
    } else if n1 == 0x4 {
        lemma_typed_skip_ne_imm(x, kk);
        assert(no_ret(p));
    } else if n1 == 0x5 {
        lemma_typed_skip_eq_reg(x, y);
        assert(no_ret(p));
    } else if n1 == 0x6 {
        lemma_typed_load_imm(x, kk);
        assert(no_ret(p));
    } else if n1 == 0x7 {
        lemma_typed_add_imm(x, kk);
        assert(no_ret(p));
    } else if n1 == 0x8 {
        if n4 == 0x0 {
            lemma_typed_alu_move(x, y);
        } else if n4 == 0x1 {
            lemma_typed_alu_bin(x, y, IntermediateInst::BOr);
        } else if n4 == 0x2 {
            lemma_typed_alu_bin(x, y, IntermediateInst::BAnd);
        } else if n4 == 0x3 {
            lemma_typed_alu_bin(x, y, IntermediateInst::BXor);
        } else if n4 == 0x4 {
            lemma_typed_alu_addov(x, y);
        } else if n4 == 0x5 {
            lemma_typed_alu_subov(x, y, x);
        } else if n4 == 0x6 {
            lemma_typed_alu_shift(x, IntermediateInst::BShrOv);
        } else if n4 == 0x7 {
            lemma_typed_alu_subov(y, x, x);
        } else {
            lemma_typed_alu_shift(x, IntermediateInst::BShlOv);
        }
        assert(no_ret(p));
    } else if n1 == 0x9 {
        lemma_typed_skip_ne_reg(x, y);
        assert(no_ret(p));
    } else if n1 == 0xA {
        lemma_typed_seti(nnn);
        assert(no_ret(p));
    } else if n1 == 0xB {
        lemma_typed_jump0(nnn);
        assert(no_ret(p));
    } else if n1 == 0xC {
        lemma_typed_rand(x, kk);
        assert(no_ret(p));
    } else if n1 == 0xD {
        let rows: u8 = if n4 == 0 { 16 } else { n4 as u8 };
        lemma_typed_draw(x, y, rows);
    } else if n1 == 0xE {
        if kk == 0x9E {
            lemma_typed_skip_key(x);
        } else {
            lemma_typed_skip_nokey(x);
        }
        assert(no_ret(p));
    } else {
        if kk == 0x07 {
            lemma_typed_read_delay(x);
            assert(no_ret(p));
        } else if kk == 0x0A {
            lemma_typed_wait_key(x);
            assert(no_ret(p));
        } else if kk == 0x15 {
            lemma_typed_write_timer(x, Register8::DelayTimer);
            assert(no_ret(p));
        } else if kk == 0x18 {
            lemma_typed_write_timer(x, Register8::SoundTimer);
            assert(no_ret(p));
        } else if kk == 0x1E {
            lemma_typed_add_i(x);
            assert(no_ret(p));
        } else if kk == 0x29 {
            lemma_typed_glyph(x);
            assert(no_ret(p));
        } else if kk == 0x33 {
            lemma_typed_bcd(x);
            assert(p == bcd_prog(x));
            assert(no_ret(p));
        } else if kk == 0x55 {
            lemma_typed_store(x as nat + 1);
        } else {
            lemma_typed_load(x as nat + 1);
        }
    }
}

} // verus!
