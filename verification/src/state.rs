//! The abstract machine state: a mathematical view of a CHIP-8 machine and
//! the capability interface a host must provide to the execution engine.

use vstd::prelude::*;

verus! {

/// Number of addressable memory bytes; addresses are truncated to 12 bits.
pub const MEM_SIZE: usize = 4096;

/// Number of general-purpose 8-bit registers.
pub const NUM_REGS: usize = 16;

/// Number of display pixels; pixel (x, y) lives at index `y * 64 + x`.
pub const DISP_CELLS: usize = 64 * 32;

/// The mathematical model of a CHIP-8 machine: every contract of the
/// capability interface and of the execution engine is stated over this view.
#[verifier::ext_equal]
pub struct MachineView {
    /// 4096 bytes of memory.
    pub mem: Seq<u8>,
    /// The 16 general-purpose registers V0..VF.
    pub regs: Seq<u8>,
    /// Program counter, always below 4096.
    pub pc: u16,
    /// Index register I, always below 4096.
    pub index: u16,
    /// Call stack of return addresses, each below 4096.
    pub ret_stack: Seq<u16>,
    /// Delay timer, counting down at 60 Hz under host control.
    pub delay: u8,
    /// Sound timer, counting down at 60 Hz under host control.
    pub sound: u8,
    /// Display pixels, row-major: pixel (x, y) is `disp[y * 64 + x]`.
    pub disp: Seq<bool>,
    /// Key state for the 16-key keypad.
    pub keys: Seq<bool>,
    /// Base memory address of the 16 five-byte hexadecimal glyph bitmaps.
    pub glyph_base: u16,
}

/// Well-formedness of a machine view: component sizes, and every address-like
/// quantity already truncated to 12 bits.
pub open spec fn wf(m: MachineView) -> bool {
    &&& m.mem.len() == MEM_SIZE
    &&& m.regs.len() == NUM_REGS
    &&& m.disp.len() == DISP_CELLS
    &&& m.keys.len() == 16
    &&& m.pc < MEM_SIZE
    &&& m.index < MEM_SIZE
    &&& (forall|k: int| 0 <= k < m.ret_stack.len() ==> m.ret_stack[k] < MEM_SIZE)
    &&& m.glyph_base + 5 * 16 <= MEM_SIZE
}

/// A display with every pixel off.
pub open spec fn blank_display() -> Seq<bool> {
    Seq::new(DISP_CELLS as nat, |j: int| false)
}

/// Whether sprite row byte `bits` has its pixel at horizontal offset `xo`
/// (0 = leftmost, most significant bit) set.
pub open spec fn sprite_bit(bits: u8, xo: int) -> bool {
    (bits >> ((7 - xo) as u8)) & 1 == 1
}

/// Whether drawing the sprite row `bits` at (x, y) toggles the display cell
/// `j`. A row covers up to 8 pixels to the right of x and is clipped at the
/// right display edge.
pub open spec fn pixel_toggled(x: int, y: int, bits: u8, j: int) -> bool {
    let col = j - y * 64;
    &&& 0 <= col < 64
    &&& x <= col < x + 8
    &&& sprite_bit(bits, col - x)
}

/// The display after XOR-compositing one sprite row `bits` at (x, y).
pub open spec fn xor_line(d: Seq<bool>, x: int, y: int, bits: u8) -> Seq<bool> {
    Seq::new(d.len(), |j: int| if pixel_toggled(x, y, bits, j) { !d[j] } else { d[j] })
}

/// The display after XOR-compositing the leftmost `xo` pixels of one sprite
/// row `bits` at (x, y): the intermediate states of a row draw.
pub open spec fn xor_line_upto(d: Seq<bool>, x: int, y: int, bits: u8, xo: int) -> Seq<bool> {
    Seq::new(d.len(), |j: int| if pixel_toggled(x, y, bits, j) && j - y * 64 - x < xo {
        !d[j]
    } else {
        d[j]
    })
}

/// Whether XOR-compositing one sprite row `bits` at (x, y) turns some
/// previously-set pixel off (the collision flag of a row draw).
pub open spec fn xor_collision(d: Seq<bool>, x: int, y: int, bits: u8) -> bool {
    exists|j: int| 0 <= j < d.len() && #[trigger] pixel_toggled(x, y, bits, j) && d[j]
}

/// Whether key `k` is currently pressed; keys 16 and above never are.
pub open spec fn key_down(m: MachineView, k: u8) -> bool {
    k < 16 && m.keys[k as int]
}

/// The memory address of the glyph bitmap for the low nibble of `c`.
pub open spec fn glyph_addr(m: MachineView, c: u8) -> u16 {
    (m.glyph_base + 5 * ((c % 16) as u16)) as u16
}

/// The capability set a host must provide: register, memory, timer, call
/// stack, display and keyboard access. This trait is the engine's only
/// channel to the outside world; any host (graphical, headless, or a test
/// double) implements it. Each method's contract is stated over the host's
/// machine view.
pub trait Chip8State: Sized {
    /// The abstract machine state this host represents.
    spec fn model(&self) -> MachineView;

    /// Read general-purpose register `r`.
    fn read_gp_register(&self, r: u8) -> (v: u8)
        requires
            wf(self.model()),
            r < 16,
        ensures
            v == self.model().regs[r as int],
    ;

    /// Write general-purpose register `r`.
    fn write_gp_register(&mut self, r: u8, v: u8)
        requires
            wf(old(self).model()),
            r < 16,
        ensures
            final(self).model() == (MachineView {
                regs: old(self).model().regs.update(r as int, v),
                ..old(self).model()
            }),
    ;

    /// Read the program counter.
    fn get_pc(&self) -> (a: u16)
        requires
            wf(self.model()),
        ensures
            a == self.model().pc,
    ;

    /// Set the program counter; the caller masks to 12 bits.
    fn set_pc(&mut self, address: u16)
        requires
            wf(old(self).model()),
            address < MEM_SIZE,
        ensures
            final(self).model() == (MachineView { pc: address, ..old(self).model() }),
    ;

    /// Read the index register.
    fn get_i(&self) -> (a: u16)
        requires
            wf(self.model()),
        ensures
            a == self.model().index,
    ;

    /// Set the index register; the caller masks to 12 bits.
    fn set_i(&mut self, v: u16)
        requires
            wf(old(self).model()),
            v < MEM_SIZE,
        ensures
            final(self).model() == (MachineView { index: v, ..old(self).model() }),
    ;

    /// Push a return address onto the call stack.
    fn stack_push(&mut self, v: u16)
        requires
            wf(old(self).model()),
            v < MEM_SIZE,
        ensures
            final(self).model() == (MachineView {
                ret_stack: old(self).model().ret_stack.push(v),
                ..old(self).model()
            }),
    ;

    /// Pop the most recent return address. Popping an empty call stack is a
    /// fatal underflow, so the contract forbids it.
    fn stack_pop(&mut self) -> (v: u16)
        requires
            wf(old(self).model()),
            old(self).model().ret_stack.len() > 0,
        ensures
            v == old(self).model().ret_stack.last(),
            final(self).model() == (MachineView {
                ret_stack: old(self).model().ret_stack.drop_last(),
                ..old(self).model()
            }),
    ;

    /// How many return addresses the call stack currently holds.
    fn stack_depth(&self) -> (n: usize)
        requires
            wf(self.model()),
        ensures
            n == self.model().ret_stack.len(),
    ;

    /// Read the memory byte at `addr`; the caller masks to 12 bits.
    fn read_mem(&self, addr: u16) -> (v: u8)
        requires
            wf(self.model()),
            addr < MEM_SIZE,
        ensures
            v == self.model().mem[addr as int],
    ;

    /// Write the memory byte at `addr`; the caller masks to 12 bits.
    fn write_mem(&mut self, addr: u16, v: u8)
        requires
            wf(old(self).model()),
            addr < MEM_SIZE,
        ensures
            final(self).model() == (MachineView {
                mem: old(self).model().mem.update(addr as int, v),
                ..old(self).model()
            }),
    ;

    /// Turn every display pixel off.
    fn clear_screen(&mut self)
        requires
            wf(old(self).model()),
        ensures
            final(self).model() == (MachineView { disp: blank_display(), ..old(self).model() }),
    ;

    /// XOR-composite one sprite row of up to 8 pixels at (x, y), clipping at
    /// the right display edge, and report whether any previously-set pixel
    /// was turned off.
    fn screen_xor_line(&mut self, x: u8, y: u8, bits: u8) -> (collision: bool)
        requires
            wf(old(self).model()),
            x < 64,
            y < 32,
        ensures
            final(self).model() == (MachineView {
                disp: xor_line(old(self).model().disp, x as int, y as int, bits),
                ..old(self).model()
            }),
            collision == xor_collision(old(self).model().disp, x as int, y as int, bits),
    ;

    /// Whether key `k` is currently pressed; keys 16 and above never are.
    fn get_key_status(&self, k: u8) -> (pressed: bool)
        requires
            wf(self.model()),
        ensures
            pressed == key_down(self.model(), k),
    ;

    /// Block until some key is pressed and report which. Only the key state
    /// may change while blocking. A host without an input source of its own
    /// cannot block meaningfully and may report any key number.
    fn wait_for_keypress(&mut self) -> (k: u8)
        requires
            wf(old(self).model()),
        ensures
            k < 16,
            final(self).model() == (MachineView {
                keys: final(self).model().keys,
                ..old(self).model()
            }),
            final(self).model().keys.len() == 16,
    ;

    /// The memory address of the glyph bitmap for hexadecimal digit `ch`.
    fn get_hex_char_addr(&self, ch: u8) -> (a: u16)
        requires
            wf(self.model()),
            ch < 16,
        ensures
            a == glyph_addr(self.model(), ch),
    ;

    /// Read the delay timer.
    fn get_delay(&self) -> (v: u8)
        requires
            wf(self.model()),
        ensures
            v == self.model().delay,
    ;

    /// Write the delay timer.
    fn set_delay(&mut self, v: u8)
        requires
            wf(old(self).model()),
        ensures
            final(self).model() == (MachineView { delay: v, ..old(self).model() }),
    ;

    /// Read the sound timer.
    fn get_sound(&self) -> (v: u8)
        requires
            wf(self.model()),
        ensures
            v == self.model().sound,
    ;

    /// Write the sound timer.
    fn set_sound(&mut self, v: u8)
        requires
            wf(old(self).model()),
        ensures
            final(self).model() == (MachineView { sound: v, ..old(self).model() }),
    ;

    /// Draw a byte from the host's entropy source. Nothing is promised of
    /// the value; the abstract machine state is unchanged.
    fn random_byte(&mut self) -> (v: u8)
        requires
            wf(old(self).model()),
        ensures
            final(self).model() == old(self).model(),
    ;
}

} // verus!
