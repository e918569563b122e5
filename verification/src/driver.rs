//! The fetch-execute driver: read two bytes at the program counter, decode
//! them, run the micro-program against a fresh operand stack, and advance
//! the program counter unless some operation already redirected it.

use vstd::prelude::*;
use crate::il::{IntermediateInst, IntermediateValue, ValueTag, stack_tags, step_typed, prog_typed};
use crate::state::{Chip8State, MachineView, wf};
use crate::semantics::{IlConfig, start_cfg, il_cstep, il_steps, lemma_il_steps_snoc,
    lemma_step_tags};
use crate::decode::{decode, parse_instruction};
use crate::typing::{no_ret, lemma_decode_ok};

verus! {

/// An error the machine's user can trigger through ROM content.
#[derive(Clone, Copy, PartialEq, Eq, Structural, Debug)]
pub enum Chip8Error {
    /// The 16-bit word at the program counter decodes to no recognized
    /// opcode; execution of the instruction is refused, never skipped.
    IllegalOpcode(u16),
}

/// The 16-bit opcode at the program counter: the byte at PC is the high
/// byte, the byte after it (the address truncated to 12 bits) the low byte.
pub open spec fn fetched(m: MachineView) -> u16 {
    (m.mem[m.pc as int] * 256 + m.mem[((m.pc + 1) % 4096) as int]) as u16
}

/// Composing two bytes into a 16-bit word by shift-and-or is the same as
/// arithmetic composition.
pub proof fn lemma_op_compose(h: u16, l: u16)
    requires
        h < 256,
        l < 256,
    ensures
        (h << 8) | l == h * 256 + l,
{
    assert((h << 8) | l == h * 256 + l) by (bit_vector)
        requires
            h < 256,
            l < 256,
    ;
}

/// One fetch-execute cycle. Fetches the opcode at the program counter and
/// either reports it illegal, leaving the machine unchanged, or runs its
/// whole micro-program over a fresh operand stack — which provably returns
/// empty — and advances the program counter by two unless the program
/// redirected it. A `00EE` may only be run with a return address on the call
/// stack: popping an empty call stack is a fatal underflow.
pub fn run_instruction<S: Chip8State>(s: &mut S) -> (r: Result<(), Chip8Error>)
    requires
        wf(old(s).model()),
        fetched(old(s).model()) == 0x00EE ==> old(s).model().ret_stack.len() > 0,
    ensures
        wf(final(s).model()),
        ({
            let op = fetched(old(s).model());
            match r {
                Result::Err(e) => {
                    &&& decode(op) is None
                    &&& e == Chip8Error::IllegalOpcode(op)
                    &&& final(s).model() == old(s).model()
                },
                Result::Ok(()) => {
                    &&& decode(op) is Some
                    &&& exists|c: IlConfig|
                        #[trigger] il_steps(decode(op)->0, start_cfg(old(s).model()), c)
                        && c.s == Seq::<IntermediateValue>::empty()
                        && final(s).model() == (if c.rd {
                            c.m
                        } else {
                            MachineView { pc: ((c.m.pc + 2) % 4096) as u16, ..c.m }
                        })
                },
            }
        }),
{
    let pc = s.get_pc();
    let hi = s.read_mem(pc);
    let lo = s.read_mem((pc + 1) % 4096);
    let op = ((hi as u16) << 8) | (lo as u16);
    proof {
        lemma_op_compose(hi as u16, lo as u16);
        assert(op == fetched(s.model()));
    }
    match parse_instruction(op) {
        None => Result::Err(Chip8Error::IllegalOpcode(op)),
        Some(prog) => {
            proof {
                lemma_decode_ok(op);
            }
            let ghost m0 = s.model();
            let ghost p = prog@;
            let mut stack: Vec<IntermediateValue> = Vec::new();
            let mut pc_flag = false;
            let mut j: usize = 0;
            proof {
                assert(p.take(0) =~= Seq::<IntermediateInst>::empty());
                assert(p.skip(0) == p);
                assert(stack_tags(stack@) =~= Seq::<ValueTag>::empty());
            }
            while j < prog.len()
                invariant
                    wf(s.model()),
                    j <= p.len(),
                    prog@ == p,
                    decode(op) == Some(p),
                    m0 == old(s).model(),
                    wf(m0),
                    op == 0x00EE ==> p == seq![IntermediateInst::Ret]
                        && m0.ret_stack.len() > 0,
                    op != 0x00EE ==> no_ret(p),
                    il_steps(p.take(j as int), start_cfg(m0),
                        IlConfig { m: s.model(), s: stack@, rd: pc_flag }),
                    prog_typed(p.skip(j as int), stack_tags(stack@))
                        == Some(Seq::<ValueTag>::empty()),
                decreases p.len() - j,
            {
                let inst = prog[j];
                let ghost c_before = IlConfig { m: s.model(), s: stack@, rd: pc_flag };
                proof {
                    assert(p.skip(j as int)[0] == p[j as int]);
                    assert(p.skip(j as int).len() > 0);
                    if inst is Ret {
                        assert(op == 0x00EE);
                        assert(p.len() == 1 && j == 0);
                        assert(p.take(0) =~= Seq::<IntermediateInst>::empty());
                        assert(s.model() == m0);
                    }
                }
                let rd = inst.execute(s, &mut stack);
                pc_flag = pc_flag || rd;
                proof {
                    let c_after = IlConfig { m: s.model(), s: stack@, rd: pc_flag };
                    assert(il_cstep(p[j as int], c_before, c_after));
                    lemma_il_steps_snoc(p.take(j as int), p[j as int], start_cfg(m0),
                        c_before, c_after);
                    assert(p.take(j as int).push(p[j as int]) =~= p.take(j as int + 1));
                    lemma_step_tags(p[j as int], c_before.m, c_before.s, c_after.m, c_after.s);
                    assert(p.skip(j as int).skip(1) =~= p.skip(j as int + 1));
                }
                j = j + 1;
            }
            proof {
                assert(p.skip(p.len() as int) =~= Seq::<IntermediateInst>::empty());
                assert(stack_tags(stack@) =~= Seq::<ValueTag>::empty());
                assert(stack_tags(stack@).len() == stack@.len());
                assert(stack@ =~= Seq::<IntermediateValue>::empty());
                assert(p.take(p.len() as int) == p);
            }
            let ghost c_end = IlConfig { m: s.model(), s: stack@, rd: pc_flag };
            if !pc_flag {
                let pc2 = s.get_pc();
                s.set_pc((pc2 + 2) % 4096);
            }
            proof {
                assert(il_steps(decode(op)->0, start_cfg(old(s).model()), c_end)
                    && c_end.s == Seq::<IntermediateValue>::empty()
                    && s.model() == (if c_end.rd {
                        c_end.m
                    } else {
                        MachineView { pc: ((c_end.m.pc + 2) % 4096) as u16, ..c_end.m }
                    }));
            }
            Result::Ok(())
        },
    }
}

} // verus!
