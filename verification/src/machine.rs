//! A verified, headless machine implementing the capability interface: 4096
//! bytes of memory with the glyph table at address 0 and the program image
//! at 0x200, sixteen registers, a call stack, a 64 by 32 pixel display, a
//! sixteen-key keypad the host can press and release, and a deterministic
//! xorshift entropy source. Suits tests and any host that renders the
//! display itself.

use vstd::prelude::*;
use crate::state::{Chip8State, MachineView, wf, blank_display, xor_line, xor_line_upto,
    xor_collision, pixel_toggled, sprite_bit, MEM_SIZE, NUM_REGS, DISP_CELLS};

verus! {

/// The sixteen five-byte glyph bitmaps for hexadecimal digits 0 through F,
/// resident at address 0.
pub open spec fn font() -> Seq<u8> {
    seq![
        0xf0, 0x90, 0x90, 0x90, 0xf0,
        0x20, 0x60, 0x20, 0x20, 0x70,
        0xf0, 0x10, 0xf0, 0x80, 0xf0,
        0xf0, 0x10, 0xf0, 0x10, 0xf0,
        0x90, 0x90, 0xf0, 0x10, 0x10,
        0xf0, 0x80, 0xf0, 0x10, 0xf0,
        0xf0, 0x80, 0xf0, 0x90, 0xf0,
        0xf0, 0x10, 0x20, 0x40, 0x40,
        0xf0, 0x90, 0xf0, 0x90, 0xf0,
        0xf0, 0x90, 0xf0, 0x10, 0xf0,
        0xf0, 0x90, 0xf0, 0x90, 0x90,
        0xe0, 0x90, 0xe0, 0x90, 0xe0,
        0xf0, 0x80, 0x80, 0x80, 0xf0,
        0xe0, 0x90, 0x90, 0x90, 0xe0,
        0xf0, 0x80, 0xf0, 0x80, 0xf0,
        0xf0, 0x80, 0xf0, 0x80, 0x80,
    ]
}

/// Address where a fresh machine's program image begins and where its
/// program counter starts.
pub const PROGRAM_BASE: u16 = 0x200;

/// Largest program image a fresh machine accepts.
pub const MAX_PROGRAM_LEN: usize = 0xe00;

/// A headless CHIP-8 machine.
pub struct Machine {
    mem: Vec<u8>,
    regs: Vec<u8>,
    pc: u16,
    index: u16,
    ret_stack: Vec<u16>,
    delay: u8,
    sound: u8,
    disp: Vec<bool>,
    keys: Vec<bool>,
    seed: u64,
}

impl Machine {
    /// A fresh machine holding the program image `rom` at 0x200: the glyph
    /// table sits at address 0, every other memory byte, every register,
    /// both timers, the display and the keypad are clear, and the program
    /// counter is at the image's start.
    pub fn new(rom: &Vec<u8>) -> (m: Machine)
        requires
            rom@.len() <= MAX_PROGRAM_LEN,
        ensures
            wf(m.model()),
            m.model().pc == PROGRAM_BASE,
            m.model().index == 0,
            m.model().regs =~= Seq::new(NUM_REGS as nat, |r: int| 0u8),
            m.model().ret_stack =~= Seq::<u16>::empty(),
            m.model().delay == 0,
            m.model().sound == 0,
            m.model().disp =~= blank_display(),
            m.model().keys =~= Seq::new(16, |k: int| false),
            m.model().glyph_base == 0,
            forall|a: int| 0 <= a < 80 ==> m.model().mem[a] == font()[a],
            forall|a: int| 80 <= a < 0x200 ==> m.model().mem[a] == 0,
            forall|a: int| 0x200 <= a < 0x200 + rom@.len()
                ==> m.model().mem[a] == rom@[a - 0x200],
            forall|a: int| 0x200 + rom@.len() <= a < 0x1000 ==> m.model().mem[a] == 0,
    {
        let mut mem: Vec<u8> = Vec::new();
        while mem.len() < MEM_SIZE
            invariant
                mem@.len() <= MEM_SIZE,
                forall|a: int| 0 <= a < mem@.len() ==> mem@[a] == 0,
            decreases MEM_SIZE - mem@.len(),
        {
            mem.push(0);
        }
        let glyphs: Vec<u8> = vec![
            0xf0, 0x90, 0x90, 0x90, 0xf0,
            0x20, 0x60, 0x20, 0x20, 0x70,
            0xf0, 0x10, 0xf0, 0x80, 0xf0,
            0xf0, 0x10, 0xf0, 0x10, 0xf0,
            0x90, 0x90, 0xf0, 0x10, 0x10,
            0xf0, 0x80, 0xf0, 0x10, 0xf0,
            0xf0, 0x80, 0xf0, 0x90, 0xf0,
            0xf0, 0x10, 0x20, 0x40, 0x40,
            0xf0, 0x90, 0xf0, 0x90, 0xf0,
            0xf0, 0x90, 0xf0, 0x10, 0xf0,
            0xf0, 0x90, 0xf0, 0x90, 0x90,
            0xe0, 0x90, 0xe0, 0x90, 0xe0,
            0xf0, 0x80, 0x80, 0x80, 0xf0,
            0xe0, 0x90, 0x90, 0x90, 0xe0,
            0xf0, 0x80, 0xf0, 0x80, 0xf0,
            0xf0, 0x80, 0xf0, 0x80, 0x80,
        ];
        proof {
            assert(glyphs@ =~= font());
        }
        let mut i: usize = 0;
        while i < glyphs.len()
            invariant
                glyphs@ == font(),
                i <= 80,
                mem@.len() == MEM_SIZE,
                forall|a: int| 0 <= a < i ==> mem@[a] == font()[a],
                forall|a: int| i <= a < MEM_SIZE ==> mem@[a] == 0,
            decreases glyphs@.len() - i,
        {
            mem.set(i, glyphs[i]);
            i = i + 1;
        }
        let mut i: usize = 0;
        while i < rom.len()
            invariant
                i <= rom@.len(),
                rom@.len() <= MAX_PROGRAM_LEN,
                mem@.len() == MEM_SIZE,
                forall|a: int| 0 <= a < 80 ==> mem@[a] == font()[a],
                forall|a: int| 80 <= a < 0x200 ==> mem@[a] == 0,
                forall|a: int| 0x200 <= a < 0x200 + i ==> mem@[a] == rom@[a - 0x200],
                forall|a: int| 0x200 + i <= a < 0x1000 ==> mem@[a] == 0,
            decreases rom@.len() - i,
        {
            mem.set(0x200 + i, rom[i]);
            i = i + 1;
        }
        let mut regs: Vec<u8> = Vec::new();
        while regs.len() < NUM_REGS
            invariant
                regs@.len() <= NUM_REGS,
                forall|r: int| 0 <= r < regs@.len() ==> regs@[r] == 0,
            decreases NUM_REGS - regs@.len(),
        {
            regs.push(0);
        }
        let mut disp: Vec<bool> = Vec::new();
        while disp.len() < DISP_CELLS
            invariant
                disp@.len() <= DISP_CELLS,
                forall|j: int| 0 <= j < disp@.len() ==> disp@[j] == false,
            decreases DISP_CELLS - disp@.len(),
        {
            disp.push(false);
        }
        let mut keys: Vec<bool> = Vec::new();
        while keys.len() < 16
            invariant
                keys@.len() <= 16,
                forall|k: int| 0 <= k < keys@.len() ==> keys@[k] == false,
            decreases 16 - keys@.len(),
        {
            keys.push(false);
        }
        let m = Machine {
            mem,
            regs,
            pc: PROGRAM_BASE,
            index: 0,
            ret_stack: Vec::new(),
            delay: 0,
            sound: 0,
            disp,
            keys,
            seed: 0x2545f4914f6cdd1d,
        };
        proof {
            assert(m.model().regs =~= Seq::new(NUM_REGS as nat, |r: int| 0u8));
            assert(m.model().disp =~= blank_display());
            assert(m.model().keys =~= Seq::new(16, |k: int| false));
        }
        m
    }

    /// Whether the display pixel at (x, y) is on.
    pub fn pixel(&self, x: u8, y: u8) -> (on: bool)
        requires
            wf(self.model()),
            x < 64,
            y < 32,
        ensures
            on == self.model().disp[y as int * 64 + x as int],
    {
        self.disp[(y as usize) * 64 + (x as usize)]
    }

    /// Press (`down` true) or release key `k`.
    pub fn set_key(&mut self, k: u8, down: bool)
        requires
            wf(old(self).model()),
            k < 16,
        ensures
            final(self).model() == (MachineView {
                keys: old(self).model().keys.update(k as int, down),
                ..old(self).model()
            }),
    {
        self.keys.set(k as usize, down);
    }
}

impl Chip8State for Machine {
    closed spec fn model(&self) -> MachineView {
        MachineView {
            mem: self.mem@,
            regs: self.regs@,
            pc: self.pc,
            index: self.index,
            ret_stack: self.ret_stack@,
            delay: self.delay,
            sound: self.sound,
            disp: self.disp@,
            keys: self.keys@,
            glyph_base: 0,
        }
    }

    fn read_gp_register(&self, r: u8) -> u8 {
        self.regs[r as usize]
    }

    fn write_gp_register(&mut self, r: u8, v: u8) {
        self.regs.set(r as usize, v);
    }

    fn get_pc(&self) -> u16 {
        self.pc
    }

    fn set_pc(&mut self, address: u16) {
        self.pc = address;
    }

    fn get_i(&self) -> u16 {
        self.index
    }

    fn set_i(&mut self, v: u16) {
        self.index = v;
    }

    fn stack_push(&mut self, v: u16) {
        self.ret_stack.push(v);
    }

    fn stack_pop(&mut self) -> u16 {
        let v = self.ret_stack.pop().unwrap();
        v
    }

    fn stack_depth(&self) -> usize {
        self.ret_stack.len()
    }

    fn read_mem(&self, addr: u16) -> u8 {
        self.mem[addr as usize]
    }

    fn write_mem(&mut self, addr: u16, v: u8) {
        self.mem.set(addr as usize, v);
    }

    fn clear_screen(&mut self) {
        let mut j: usize = 0;
        while j < DISP_CELLS
            invariant
                j <= DISP_CELLS,
                self.disp@.len() == DISP_CELLS,
                self.model() == (MachineView { disp: self.disp@, ..old(self).model() }),
                forall|a: int| 0 <= a < j ==> self.disp@[a] == false,
            decreases DISP_CELLS - j,
        {
            self.disp.set(j, false);
            j = j + 1;
        }
        proof {
            assert(self.disp@ =~= blank_display());
        }
    }

    #[verifier::rlimit(50)]
    fn screen_xor_line(&mut self, x: u8, y: u8, bits: u8) -> (collision: bool) {
        let ghost d0 = self.disp@;
        let mut collision = false;
        let mut xo: u8 = 0;
        while xo < 8
            invariant
                x < 64,
                y < 32,
                xo <= 8,
                self.disp@.len() == DISP_CELLS,
                self.model() == (MachineView { disp: self.disp@, ..old(self).model() }),
                d0 == old(self).model().disp,
                d0.len() == DISP_CELLS,
                self.disp@ == xor_line_upto(d0, x as int, y as int, bits, xo as int),
                collision == exists|j: int| #![trigger pixel_toggled(x as int, y as int, bits, j)]
                    0 <= j < DISP_CELLS
                    && pixel_toggled(x as int, y as int, bits, j)
                    && (j - y as int * 64 - x as int) < (xo as int)
                    && d0[j],
            decreases 8 - xo,
        {
            if x + xo < 64 {
                let bit = (bits >> (7 - xo)) & 1;
                if bit == 1 {
                    let idx: usize = (y as usize) * 64 + (x as usize) + (xo as usize);
                    proof {
                        assert(sprite_bit(bits, xo as int));
                        assert(pixel_toggled(x as int, y as int, bits, idx as int));
                    }
                    let cur = self.disp[idx];
                    let ghost dpre = self.disp@;
                    proof {
                        assert((idx as int - y as int * 64 - x as int) == (xo as int));
                        assert(cur == d0[idx as int]);
                    }
                    self.disp.set(idx, !cur);
                    if cur {
                        collision = true;
                    }
                    proof {
                        assert forall|j: int| 0 <= j < DISP_CELLS
                            implies self.disp@[j]
                                == xor_line_upto(d0, x as int, y as int, bits, xo as int + 1)[j] by {
                            if j == idx as int {
                                assert(pixel_toggled(x as int, y as int, bits, j));
                                assert(self.disp@[j] == !cur);
                            } else {
                                assert(self.disp@[j] == dpre[j]);
                                assert(dpre[j] == xor_line_upto(d0, x as int, y as int, bits,
                                    xo as int)[j]);
                                if pixel_toggled(x as int, y as int, bits, j)
                                    && (j - y as int * 64 - x as int) == (xo as int) {
                                    assert(j == y as int * 64 + x as int + xo as int);
                                    assert(false);
                                }
                            }
                        }
                        assert(self.disp@
                            =~= xor_line_upto(d0, x as int, y as int, bits, xo as int + 1));
                    }
                } else {
                    proof {
                        assert forall|j: int| 0 <= j < DISP_CELLS
                            implies self.disp@[j]
                                == xor_line_upto(d0, x as int, y as int, bits, xo as int + 1)[j] by {
                            if pixel_toggled(x as int, y as int, bits, j)
                                && (j - y as int * 64 - x as int) == (xo as int) {
                                assert(!sprite_bit(bits, xo as int));
                                assert(false);
                            }
                        }
                        assert(self.disp@
                            =~= xor_line_upto(d0, x as int, y as int, bits, xo as int + 1));
                    }
                }
            } else {
                proof {
                    assert forall|j: int| 0 <= j < DISP_CELLS
                        implies self.disp@[j]
                            == xor_line_upto(d0, x as int, y as int, bits, xo as int + 1)[j] by {
                        if pixel_toggled(x as int, y as int, bits, j)
                            && (j - y as int * 64 - x as int) == (xo as int) {
                            assert(j - y as int * 64 >= 64);
                            assert(false);
                        }
                    }
                    assert(self.disp@
                        =~= xor_line_upto(d0, x as int, y as int, bits, xo as int + 1));
                }
            }
            xo = xo + 1;
        }
        proof {
            assert forall|j: int| 0 <= j < DISP_CELLS
                implies self.disp@[j] == xor_line(d0, x as int, y as int, bits)[j] by {
                assert(self.disp@[j] == xor_line_upto(d0, x as int, y as int, bits, 8)[j]);
            }
            assert(self.disp@ =~= xor_line(d0, x as int, y as int, bits));
            if collision {
                let j = choose|j: int| #![trigger pixel_toggled(x as int, y as int, bits, j)]
                    0 <= j < DISP_CELLS
                    && pixel_toggled(x as int, y as int, bits, j)
                    && (j - y as int * 64 - x as int) < 8 && d0[j];
                assert(xor_collision(d0, x as int, y as int, bits));
            }
            if xor_collision(d0, x as int, y as int, bits) {
                let j = choose|j: int| #![trigger pixel_toggled(x as int, y as int, bits, j)]
                    0 <= j < d0.len()
                    && pixel_toggled(x as int, y as int, bits, j) && d0[j];
                assert(0 <= j < DISP_CELLS && pixel_toggled(x as int, y as int, bits, j)
                    && (j - y as int * 64 - x as int) < 8 && d0[j]);
            }
        }
        collision
    }

    fn get_key_status(&self, k: u8) -> bool {
        k < 16 && self.keys[k as usize]
    }

    fn wait_for_keypress(&mut self) -> u8 {
        let mut k: u8 = 0;
        while k < 16
            invariant
                wf(self.model()),
                self.model() == old(self).model(),
                k <= 16,
            decreases 16 - k,
        {
            if self.keys[k as usize] {
                return k;
            }
            k = k + 1;
        }
        0
    }

    fn get_hex_char_addr(&self, ch: u8) -> u16 {
        ch as u16 * 5
    }

    fn get_delay(&self) -> u8 {
        self.delay
    }

    fn set_delay(&mut self, v: u8) {
        self.delay = v;
    }

    fn get_sound(&self) -> u8 {
        self.sound
    }

    fn set_sound(&mut self, v: u8) {
        self.sound = v;
    }

    fn random_byte(&mut self) -> u8 {
        let mut s = self.seed;
        s = s ^ (s << 13);
        s = s ^ (s >> 7);
        s = s ^ (s << 17);
        self.seed = s;
        (s % 256) as u8
    }
}

} // verus!
