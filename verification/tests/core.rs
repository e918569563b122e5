use opt8::state::Chip8State;
use opt8::machine::Machine;
use opt8::driver::{run_instruction, Chip8Error};
use opt8::decode::parse_instruction;
use opt8::il::{IntermediateInst, IntermediateValue, Register8};

fn machine_with(rom: &[u8]) -> Machine {
    let rom: Vec<u8> = rom.to_vec();
    Machine::new(&rom)
}

fn step(m: &mut Machine) {
    run_instruction(m).expect("instruction should be legal");
}

#[test]
fn fresh_machine_layout() {
    let m = machine_with(&[0x12, 0x00]);
    assert_eq!(m.get_pc(), 0x200);
    assert_eq!(m.get_i(), 0);
    assert_eq!(m.read_mem(0), 0xF0); // first byte of glyph 0
    assert_eq!(m.read_mem(0x200), 0x12);
    assert_eq!(m.read_mem(0x201), 0x00);
    assert_eq!(m.read_mem(0x202), 0x00);
    for r in 0..16 {
        assert_eq!(m.read_gp_register(r), 0);
    }
    assert_eq!(m.get_delay(), 0);
    assert_eq!(m.get_sound(), 0);
}

#[test]
fn load_immediate_and_add_immediate() {
    // 6A2B: VA = 0x2B; 7A10: VA += 0x10
    let mut m = machine_with(&[0x6A, 0x2B, 0x7A, 0x10]);
    step(&mut m);
    assert_eq!(m.read_gp_register(0xA), 0x2B);
    assert_eq!(m.get_pc(), 0x202);
    step(&mut m);
    assert_eq!(m.read_gp_register(0xA), 0x3B);
}

#[test]
fn add_immediate_wraps_and_leaves_flag_alone() {
    // 60FF, 7002: V0 = 255 + 2 wraps to 1, VF untouched
    let mut m = machine_with(&[0x60, 0xFF, 0x70, 0x02]);
    m.write_gp_register(0xF, 0x77);
    step(&mut m);
    step(&mut m);
    assert_eq!(m.read_gp_register(0), 1);
    assert_eq!(m.read_gp_register(0xF), 0x77);
}

#[test]
fn add_with_carry_sets_flag() {
    // 8124: V1 += V2 with carry into VF
    let mut m = machine_with(&[0x81, 0x24]);
    m.write_gp_register(1, 200);
    m.write_gp_register(2, 100);
    step(&mut m);
    assert_eq!(m.read_gp_register(1), 44); // (200 + 100) % 256
    assert_eq!(m.read_gp_register(0xF), 1);
}

#[test]
fn add_with_carry_clears_flag() {
    let mut m = machine_with(&[0x81, 0x24]);
    m.write_gp_register(1, 10);
    m.write_gp_register(2, 20);
    m.write_gp_register(0xF, 1);
    step(&mut m);
    assert_eq!(m.read_gp_register(1), 30);
    assert_eq!(m.read_gp_register(0xF), 0);
}

#[test]
fn subtract_with_borrow() {
    // 8125: V1 = V1 - V2, VF = 1 when no borrow
    let mut m = machine_with(&[0x81, 0x25]);
    m.write_gp_register(1, 10);
    m.write_gp_register(2, 5);
    step(&mut m);
    assert_eq!(m.read_gp_register(1), 5);
    assert_eq!(m.read_gp_register(0xF), 1);
}

#[test]
fn alu_move_or_and_xor() {
    // 8120: V1 = V2
    let mut m = machine_with(&[0x81, 0x20, 0x83, 0x41, 0x85, 0x62, 0x87, 0x83]);
    m.write_gp_register(2, 0x5A);
    m.write_gp_register(3, 0b1100);
    m.write_gp_register(4, 0b1010);
    m.write_gp_register(5, 0b1100);
    m.write_gp_register(6, 0b1010);
    m.write_gp_register(7, 0b1100);
    m.write_gp_register(8, 0b1010);
    step(&mut m);
    assert_eq!(m.read_gp_register(1), 0x5A);
    step(&mut m);
    assert_eq!(m.read_gp_register(3), 0b1110); // OR
    step(&mut m);
    assert_eq!(m.read_gp_register(5), 0b1000); // AND
    step(&mut m);
    assert_eq!(m.read_gp_register(7), 0b0110); // XOR
}

#[test]
fn shifts_ignore_register_y() {
    // 8BC6: shift VB right in place, VC's value must not matter
    let mut m = machine_with(&[0x8B, 0xC6, 0x8D, 0xEE]);
    m.write_gp_register(0xB, 0x05);
    m.write_gp_register(0xC, 0xFF);
    step(&mut m);
    assert_eq!(m.read_gp_register(0xB), 0x02);
    assert_eq!(m.read_gp_register(0xF), 1); // shifted-out low bit
    m.write_gp_register(0xD, 0x81);
    m.write_gp_register(0xE, 0xFF);
    step(&mut m);
    assert_eq!(m.read_gp_register(0xD), 0x02);
    assert_eq!(m.read_gp_register(0xF), 1); // shifted-out high bit
}

#[test]
fn skip_if_equal_immediate_advances_by_four() {
    // 3A55 with VA == 0x55: next instruction is skipped
    let mut m = machine_with(&[0x3A, 0x55]);
    m.write_gp_register(0xA, 0x55);
    step(&mut m);
    assert_eq!(m.get_pc(), 0x204);
}

#[test]
fn skip_if_equal_immediate_advances_by_two() {
    let mut m = machine_with(&[0x3A, 0x55]);
    m.write_gp_register(0xA, 0x54);
    step(&mut m);
    assert_eq!(m.get_pc(), 0x202);
}

#[test]
fn skip_not_equal_and_register_compares() {
    // 4A55 (skip if VA != 0x55), 5AB0 (skip if VA == VB), 9AB0 (skip if VA != VB)
    let mut m = machine_with(&[0x4A, 0x55]);
    m.write_gp_register(0xA, 0x54);
    step(&mut m);
    assert_eq!(m.get_pc(), 0x204);

    let mut m = machine_with(&[0x5A, 0xB0]);
    m.write_gp_register(0xA, 7);
    m.write_gp_register(0xB, 7);
    step(&mut m);
    assert_eq!(m.get_pc(), 0x204);

    let mut m = machine_with(&[0x9A, 0xB0]);
    m.write_gp_register(0xA, 7);
    m.write_gp_register(0xB, 7);
    step(&mut m);
    assert_eq!(m.get_pc(), 0x202);
}

#[test]
fn jump_and_jump_with_offset() {
    let mut m = machine_with(&[0x13, 0x45]);
    step(&mut m);
    assert_eq!(m.get_pc(), 0x345);

    let mut m = machine_with(&[0xB3, 0x40]);
    m.write_gp_register(0, 5);
    step(&mut m);
    assert_eq!(m.get_pc(), 0x345);
}

#[test]
fn call_pushes_return_address_and_ret_pops_it() {
    // 2400: call 0x400; at 0x400 a 00EE returns past the call
    let mut rom = vec![0u8; 0x202];
    rom[0] = 0x24;
    rom[1] = 0x00;
    rom[0x200] = 0x00;
    rom[0x201] = 0xEE;
    let mut m = machine_with(&rom);
    step(&mut m);
    assert_eq!(m.get_pc(), 0x400);
    assert_eq!(m.stack_depth(), 1);
    step(&mut m);
    assert_eq!(m.get_pc(), 0x202);
    assert_eq!(m.stack_depth(), 0);
}

#[test]
fn set_index_and_add_to_index() {
    // A123: I = 0x123; FA1E: I += VA
    let mut m = machine_with(&[0xA1, 0x23, 0xFA, 0x1E]);
    step(&mut m);
    assert_eq!(m.get_i(), 0x123);
    m.write_gp_register(0xA, 0x10);
    step(&mut m);
    assert_eq!(m.get_i(), 0x133);
}

#[test]
fn add_to_index_wraps_to_twelve_bits() {
    let mut m = machine_with(&[0xFA, 0x1E]);
    m.set_i(0xFFF);
    m.write_gp_register(0xA, 2);
    step(&mut m);
    assert_eq!(m.get_i(), 0x001);
}

#[test]
fn random_masks_with_immediate() {
    // CA0F: VA = random & 0x0F
    let mut m = machine_with(&[0xCA, 0x0F]);
    step(&mut m);
    assert!(m.read_gp_register(0xA) < 16);
}

#[test]
fn bcd_store_of_255() {
    // F333 with V3 = 255 stores 2, 5, 5 at I, I+1, I+2
    let mut m = machine_with(&[0xF3, 0x33]);
    m.write_gp_register(3, 255);
    m.set_i(0x300);
    step(&mut m);
    assert_eq!(m.read_mem(0x300), 2);
    assert_eq!(m.read_mem(0x301), 5);
    assert_eq!(m.read_mem(0x302), 5);
    assert_eq!(m.get_i(), 0x300); // BCD leaves the index register alone
}

#[test]
fn bcd_store_of_small_value() {
    let mut m = machine_with(&[0xF3, 0x33]);
    m.write_gp_register(3, 7);
    m.set_i(0x300);
    step(&mut m);
    assert_eq!(m.read_mem(0x300), 0);
    assert_eq!(m.read_mem(0x301), 0);
    assert_eq!(m.read_mem(0x302), 7);
}

#[test]
fn batch_store_writes_registers_and_moves_index() {
    // F255: store V0..V2 at I, I left at I + 3
    let mut m = machine_with(&[0xF2, 0x55]);
    m.write_gp_register(0, 0xAA);
    m.write_gp_register(1, 0xBB);
    m.write_gp_register(2, 0xCC);
    m.set_i(0x320);
    step(&mut m);
    assert_eq!(m.read_mem(0x320), 0xAA);
    assert_eq!(m.read_mem(0x321), 0xBB);
    assert_eq!(m.read_mem(0x322), 0xCC);
    assert_eq!(m.get_i(), 0x323);
}

#[test]
fn batch_store_then_load_round_trip() {
    // F355 then A320 (same starting index) then F365 restores V0..V3
    let mut m = machine_with(&[0xF3, 0x55, 0xA3, 0x20, 0xF3, 0x65]);
    m.set_i(0x320);
    for r in 0..4u8 {
        m.write_gp_register(r, 0x10 + r);
    }
    step(&mut m);
    for r in 0..4u8 {
        m.write_gp_register(r, 0);
    }
    step(&mut m); // restore I
    step(&mut m); // load back
    for r in 0..4u8 {
        assert_eq!(m.read_gp_register(r), 0x10 + r);
    }
    assert_eq!(m.get_i(), 0x324);
}

#[test]
fn timers_read_and_write() {
    // FA15: delay = VA; FB07: VB = delay; FA18: sound = VA
    let mut m = machine_with(&[0xFA, 0x15, 0xFB, 0x07, 0xFA, 0x18]);
    m.write_gp_register(0xA, 42);
    step(&mut m);
    assert_eq!(m.get_delay(), 42);
    step(&mut m);
    assert_eq!(m.read_gp_register(0xB), 42);
    step(&mut m);
    assert_eq!(m.get_sound(), 42);
}

#[test]
fn glyph_address_of_low_nibble() {
    // FA29: I = glyph address of VA's low nibble
    let mut m = machine_with(&[0xFA, 0x29]);
    m.write_gp_register(0xA, 0x2B); // low nibble B
    step(&mut m);
    assert_eq!(m.get_i(), 0xB * 5);
    // the glyph bytes for B are resident there
    assert_eq!(m.read_mem(0xB * 5), 0xE0);
}

#[test]
fn key_skips() {
    // EA9E skips when VA's key is pressed; EAA1 when it is not
    let mut m = machine_with(&[0xEA, 0x9E]);
    m.write_gp_register(0xA, 4);
    m.set_key(4, true);
    step(&mut m);
    assert_eq!(m.get_pc(), 0x204);

    let mut m = machine_with(&[0xEA, 0xA1]);
    m.write_gp_register(0xA, 4);
    step(&mut m);
    assert_eq!(m.get_pc(), 0x204);
}

#[test]
fn wait_for_keypress_reports_pressed_key() {
    // FA0A: VA = pressed key
    let mut m = machine_with(&[0xFA, 0x0A]);
    m.set_key(9, true);
    step(&mut m);
    assert_eq!(m.read_gp_register(0xA), 9);
}

#[test]
fn first_draw_never_collides_on_cleared_display() {
    // 00E0 then D015: draw 5 rows of glyph 0 at (V0, V1)
    let mut m = machine_with(&[0x00, 0xE0, 0xD0, 0x15]);
    m.write_gp_register(0, 3);
    m.write_gp_register(1, 2);
    m.set_i(0); // glyph 0 bitmap
    step(&mut m);
    step(&mut m);
    assert_eq!(m.read_gp_register(0xF), 0);
    // glyph 0's top row is 0xF0: four pixels on
    assert!(m.pixel(3, 2));
    assert!(m.pixel(4, 2));
    assert!(m.pixel(5, 2));
    assert!(m.pixel(6, 2));
    assert!(!m.pixel(7, 2));
}

#[test]
fn second_draw_toggles_pixels_off_and_collides() {
    // draw the same sprite twice at the same position
    let mut m = machine_with(&[0xD0, 0x15, 0xD0, 0x15]);
    m.write_gp_register(0, 10);
    m.write_gp_register(1, 4);
    m.set_i(0);
    step(&mut m);
    assert_eq!(m.read_gp_register(0xF), 0);
    assert!(m.pixel(10, 4));
    step(&mut m);
    assert_eq!(m.read_gp_register(0xF), 1);
    for x in 0..64u8 {
        for y in 0..32u8 {
            assert!(!m.pixel(x, y));
        }
    }
}

#[test]
fn draw_clips_at_right_edge_and_wraps_vertically() {
    // one row of 0xFF at x = 60: only columns 60..63 appear
    let mut m = machine_with(&[0xD0, 0x12, 0xD2, 0x31]);
    m.write_gp_register(0, 60);
    m.write_gp_register(1, 31); // second row wraps to row 0
    m.set_i(0x300);
    m.write_mem(0x300, 0xFF);
    m.write_mem(0x301, 0xFF);
    step(&mut m);
    for x in 60..64u8 {
        assert!(m.pixel(x, 31));
        assert!(m.pixel(x, 0)); // vertical wrap
    }
    assert!(!m.pixel(59, 31));
    // x wraps modulo 64 at the start coordinate
    m.write_gp_register(2, 64 + 2);
    m.write_gp_register(3, 5);
    step(&mut m);
    assert!(m.pixel(2, 5));
}

#[test]
fn clear_screen_turns_everything_off() {
    let mut m = machine_with(&[0xD0, 0x11, 0x00, 0xE0]);
    m.set_i(0x300);
    m.write_mem(0x300, 0xFF);
    step(&mut m);
    assert!(m.pixel(0, 0));
    step(&mut m);
    for x in 0..64u8 {
        for y in 0..32u8 {
            assert!(!m.pixel(x, y));
        }
    }
}

#[test]
fn unrecognized_opcode_is_reported_not_skipped() {
    // 0x5001: low nibble of a 5xy0 must be 0
    let mut m = machine_with(&[0x50, 0x01]);
    let r = run_instruction(&mut m);
    assert_eq!(r, Err(Chip8Error::IllegalOpcode(0x5001)));
    assert_eq!(m.get_pc(), 0x200); // nothing moved
    assert!(parse_instruction(0x5001).is_none());
}

#[test]
fn more_unrecognized_opcodes() {
    assert!(parse_instruction(0x0123).is_none()); // no legacy SYS call
    assert!(parse_instruction(0x9ab1).is_none());
    assert!(parse_instruction(0x8ab8).is_none());
    assert!(parse_instruction(0xe0a2).is_none());
    assert!(parse_instruction(0xfa99).is_none());
    assert!(parse_instruction(0x8f04).is_none()); // flag register as x in 8xy4
    assert!(parse_instruction(0xdf05).is_none()); // flag register as draw coordinate
    assert!(parse_instruction(0x00e1).is_none());
}

#[test]
fn parse_produces_expected_micro_program() {
    assert_eq!(
        parse_instruction(0x00E0),
        Some(vec![IntermediateInst::ClearScreen])
    );
    assert_eq!(
        parse_instruction(0x6A2B),
        Some(vec![
            IntermediateInst::PushImm(0x2B),
            IntermediateInst::RegWrite(Register8::Generic(0xA)),
        ])
    );
    assert_eq!(
        parse_instruction(0x3A55),
        Some(vec![
            IntermediateInst::RegRead(Register8::Generic(0xA)),
            IntermediateInst::PushImm(0x55),
            IntermediateInst::Equal,
            IntermediateInst::CondSkipPC,
        ])
    );
}

#[test]
fn operand_stack_is_empty_after_each_micro_program() {
    // run a handful of whole micro-programs by hand and watch the stack
    let mut m = machine_with(&[]);
    m.write_gp_register(1, 7);
    m.write_gp_register(2, 9);
    for op in [0x8124u16, 0x6A55, 0x3A55, 0xA123, 0xF333] {
        let prog = parse_instruction(op).expect("legal opcode");
        let mut stack: Vec<IntermediateValue> = Vec::new();
        for inst in prog {
            inst.execute(&mut m, &mut stack);
        }
        assert!(stack.is_empty());
    }
}

#[test]
fn program_counter_wraps_at_twelve_bits() {
    let mut m = machine_with(&[0x6A, 0x2B]);
    m.set_pc(0xFFE);
    m.write_mem(0xFFE, 0x6B);
    m.write_mem(0xFFF, 0x07);
    step(&mut m);
    assert_eq!(m.read_gp_register(0xB), 0x07);
    assert_eq!(m.get_pc(), 0x000);
}

#[test]
fn largest_rom_fits_against_the_end_of_memory() {
    let rom = vec![0x5Au8; 0xE00];
    let m = Machine::new(&rom);
    assert_eq!(m.read_mem(0x200), 0x5A);
    assert_eq!(m.read_mem(0xFFF), 0x5A);
}

#[test]
fn draw_with_zero_height_means_sixteen_rows() {
    // D010: sixteen rows of 0x80 paint a vertical line
    let mut m = machine_with(&[0xD0, 0x10]);
    m.set_i(0x300);
    for row in 0..16u16 {
        m.write_mem(0x300 + row, 0x80);
    }
    step(&mut m);
    for row in 0..16u8 {
        assert!(m.pixel(0, row));
    }
    assert!(!m.pixel(0, 16));
    assert!(!m.pixel(1, 0));
}
