use chip8::font::FONT_SET;
use chip8::machine::{Effect, Fault};
use chip8::processor::Processor;

fn run(p: &mut Processor, instruction: u16) -> Result<Effect, Fault> {
    p.decode_and_execute_instruction(instruction, None)
}

fn run_with_key(p: &mut Processor, instruction: u16, key: u8) -> Result<Effect, Fault> {
    p.decode_and_execute_instruction(instruction, Some(key))
}

fn set(p: &mut Processor, x: u8, value: u8) {
    assert_eq!(run(p, 0x6000 | (x as u16) << 8 | value as u16), Ok(Effect::Continue));
}

fn lit_pixels(p: &Processor) -> Vec<(usize, usize)> {
    let mut lit = Vec::new();
    for r in 0..32 {
        for c in 0..64 {
            if p.pixel(r, c) != 0 {
                lit.push((r, c));
            }
        }
    }
    lit
}

fn registers(p: &Processor) -> Vec<u8> {
    (0..16u8).map(|x| p.register(x)).collect()
}

#[test]
fn new_machine_holds_font_and_zeros() {
    let p = Processor::new();
    assert_eq!(p.pc(), 0x200);
    assert_eq!(p.index_register(), 0);
    assert_eq!(p.stack_depth(), 0);
    assert_eq!(p.delay_timer(), 0);
    assert_eq!(p.sound_timer(), 0);
    assert_eq!(registers(&p), vec![0u8; 16]);
    for a in 0..80 {
        assert_eq!(p.memory(a), FONT_SET[a]);
    }
    for a in 80..4096 {
        assert_eq!(p.memory(a), 0);
    }
    assert!(lit_pixels(&p).is_empty());
}

#[test]
fn font_glyphs_are_where_programs_expect_them() {
    let p = Processor::new();
    let glyph = |d: usize| -> Vec<u8> { (0..5).map(|i| p.memory(5 * d + i)).collect() };
    assert_eq!(glyph(0x0), vec![0xF0, 0x90, 0x90, 0x90, 0xF0]);
    assert_eq!(glyph(0x1), vec![0x20, 0x60, 0x20, 0x20, 0x70]);
    assert_eq!(glyph(0x7), vec![0xF0, 0x10, 0x20, 0x40, 0x40]);
    assert_eq!(glyph(0xA), vec![0xF0, 0x90, 0xF0, 0x90, 0x90]);
    assert_eq!(glyph(0xF), vec![0xF0, 0x80, 0xF0, 0x80, 0x80]);
}

#[test]
fn load_program_copies_from_program_start() {
    let mut p = Processor::new();
    assert_eq!(p.load_program(&[0x12, 0x34, 0x56]), Ok(()));
    assert_eq!(p.memory(0x1FF), 0);
    assert_eq!(p.memory(0x200), 0x12);
    assert_eq!(p.memory(0x201), 0x34);
    assert_eq!(p.memory(0x202), 0x56);
    assert_eq!(p.memory(0x203), 0);
    assert_eq!(p.memory(0), 0xF0);
    assert_eq!(p.pc(), 0x200);
}

#[test]
fn load_program_of_exactly_3584_bytes_succeeds() {
    let mut p = Processor::new();
    let mut program = vec![0x11u8; 3584];
    program[3583] = 0x77;
    assert_eq!(p.load_program(&program), Ok(()));
    assert_eq!(p.memory(0x200), 0x11);
    assert_eq!(p.memory(4095), 0x77);
    assert_eq!(p.memory(0x1FF), 0);
}

#[test]
fn load_program_of_3585_bytes_is_rejected() {
    let mut p = Processor::new();
    let program = vec![0x11u8; 3585];
    assert_eq!(p.load_program(&program), Err(Fault::ProgramTooLarge));
    for a in 0x200..4096 {
        assert_eq!(p.memory(a), 0);
    }
}

#[test]
fn load_program_of_nothing_changes_nothing() {
    let mut p = Processor::new();
    assert_eq!(p.load_program(&[]), Ok(()));
    for a in 0x200..4096 {
        assert_eq!(p.memory(a), 0);
    }
}

#[test]
fn fetch_reads_high_byte_first_and_advances() {
    let mut p = Processor::new();
    assert_eq!(p.load_program(&[0xAB, 0xCD, 0x01, 0x02]), Ok(()));
    assert_eq!(p.get_instruction(), Ok(0xABCD));
    assert_eq!(p.pc(), 0x202);
    assert_eq!(p.get_instruction(), Ok(0x0102));
    assert_eq!(p.pc(), 0x204);
}

#[test]
fn fetch_beyond_memory_is_a_fault() {
    let mut p = Processor::new();
    p.instruction_jmp(0xFFF);
    assert_eq!(p.get_instruction(), Err(Fault::AddressOutOfRange));
    assert_eq!(p.pc(), 0xFFF);
    assert_eq!(p.cycle(None), Err(Fault::AddressOutOfRange));
    assert_eq!(p.pc(), 0xFFF);
}

#[test]
fn fetch_of_last_instruction_in_memory() {
    let mut p = Processor::new();
    let mut program = vec![0u8; 3584];
    program[3582] = 0x6A;
    program[3583] = 0x42;
    assert_eq!(p.load_program(&program), Ok(()));
    p.instruction_jmp(0xFFE);
    assert_eq!(p.cycle(None), Ok(Effect::Continue));
    assert_eq!(p.register(0xA), 0x42);
    assert_eq!(p.pc(), 0x1000);
    assert_eq!(p.cycle(None), Err(Fault::AddressOutOfRange));
    assert_eq!(p.pc(), 0x1000);
}

#[test]
fn set_and_add_immediate() {
    let mut p = Processor::new();
    assert_eq!(run(&mut p, 0x6A42), Ok(Effect::Continue));
    assert_eq!(p.register(0xA), 0x42);
    assert_eq!(run(&mut p, 0x7A01), Ok(Effect::Continue));
    assert_eq!(p.register(0xA), 0x43);
    assert_eq!(p.register(0xF), 0);
    assert_eq!(p.pc(), 0x200);
}

#[test]
fn add_immediate_wraps_without_flag() {
    let mut p = Processor::new();
    set(&mut p, 3, 0xFF);
    set(&mut p, 0xF, 0x5A);
    assert_eq!(run(&mut p, 0x7302), Ok(Effect::Continue));
    assert_eq!(p.register(3), 0x01);
    assert_eq!(p.register(0xF), 0x5A);
}

#[test]
fn alu_assign_or_and_xor_leave_flag_alone() {
    let mut p = Processor::new();
    set(&mut p, 0xF, 0x77);
    set(&mut p, 1, 0b1100_1010);
    set(&mut p, 2, 0b1010_0110);
    assert_eq!(run(&mut p, 0x8320), Ok(Effect::Continue));
    assert_eq!(p.register(3), 0b1010_0110);
    set(&mut p, 4, 0b1100_1010);
    assert_eq!(run(&mut p, 0x8421), Ok(Effect::Continue));
    assert_eq!(p.register(4), 0b1110_1110);
    set(&mut p, 5, 0b1100_1010);
    assert_eq!(run(&mut p, 0x8522), Ok(Effect::Continue));
    assert_eq!(p.register(5), 0b1000_0010);
    set(&mut p, 6, 0b1100_1010);
    assert_eq!(run(&mut p, 0x8623), Ok(Effect::Continue));
    assert_eq!(p.register(6), 0b0110_1100);
    assert_eq!(p.register(0xF), 0x77);
    assert_eq!(p.register(1), 0b1100_1010);
    assert_eq!(p.register(2), 0b1010_0110);
}

#[test]
fn alu_add_with_carry() {
    let mut p = Processor::new();
    set(&mut p, 1, 200);
    set(&mut p, 2, 100);
    assert_eq!(run(&mut p, 0x8124), Ok(Effect::Continue));
    assert_eq!(p.register(1), 44);
    assert_eq!(p.register(2), 100);
    assert_eq!(p.register(0xF), 1);
}

#[test]
fn alu_add_without_carry_clears_flag() {
    let mut p = Processor::new();
    set(&mut p, 0xF, 1);
    set(&mut p, 1, 200);
    set(&mut p, 2, 55);
    assert_eq!(run(&mut p, 0x8124), Ok(Effect::Continue));
    assert_eq!(p.register(1), 255);
    assert_eq!(p.register(0xF), 0);
}

#[test]
fn alu_add_for_all_operands() {
    let mut p = Processor::new();
    for a in 0..=255u8 {
        for b in 0..=255u8 {
            p.instruction_set(4, a);
            p.instruction_set(9, b);
            p.instruction_alu_add(4, 9);
            let sum = a as u16 + b as u16;
            assert_eq!(p.register(4) as u16, sum % 256);
            assert_eq!(p.register(0xF), if sum >= 256 { 1 } else { 0 });
        }
    }
}

#[test]
fn alu_add_into_flag_register_keeps_the_carry() {
    let mut p = Processor::new();
    set(&mut p, 0xF, 200);
    set(&mut p, 2, 100);
    assert_eq!(run(&mut p, 0x8F24), Ok(Effect::Continue));
    assert_eq!(p.register(0xF), 1);
    set(&mut p, 0xF, 20);
    assert_eq!(run(&mut p, 0x8F24), Ok(Effect::Continue));
    assert_eq!(p.register(0xF), 0);
}

#[test]
fn alu_subtract_without_borrow() {
    let mut p = Processor::new();
    set(&mut p, 1, 10);
    set(&mut p, 2, 3);
    assert_eq!(run(&mut p, 0x8125), Ok(Effect::Continue));
    assert_eq!(p.register(1), 7);
    assert_eq!(p.register(2), 3);
    assert_eq!(p.register(0xF), 1);
}

#[test]
fn alu_subtract_with_borrow_wraps() {
    let mut p = Processor::new();
    set(&mut p, 0xF, 1);
    set(&mut p, 1, 3);
    set(&mut p, 2, 10);
    assert_eq!(run(&mut p, 0x8125), Ok(Effect::Continue));
    assert_eq!(p.register(1), 249);
    assert_eq!(p.register(0xF), 0);
}

#[test]
fn alu_subtract_of_equal_operands_sets_flag() {
    let mut p = Processor::new();
    set(&mut p, 1, 77);
    set(&mut p, 2, 77);
    assert_eq!(run(&mut p, 0x8125), Ok(Effect::Continue));
    assert_eq!(p.register(1), 0);
    assert_eq!(p.register(0xF), 1);
}

#[test]
fn alu_subtract_for_all_operands() {
    let mut p = Processor::new();
    for a in 0..=255u8 {
        for b in 0..=255u8 {
            p.instruction_set(0xF, 0x33);
            p.instruction_set(4, a);
            p.instruction_set(9, b);
            p.instruction_alu_subtract(4, 9);
            assert_eq!(p.register(4), a.wrapping_sub(b));
            assert_eq!(p.register(9), b);
            assert_eq!(p.register(0xF), if a >= b { 1 } else { 0 });
        }
    }
}

#[test]
fn alu_reverse_subtract_stores_vy_minus_vx_in_vx() {
    let mut p = Processor::new();
    set(&mut p, 1, 3);
    set(&mut p, 2, 10);
    assert_eq!(run(&mut p, 0x8127), Ok(Effect::Continue));
    assert_eq!(p.register(1), 7);
    assert_eq!(p.register(2), 10);
    assert_eq!(p.register(0xF), 1);
}

#[test]
fn alu_reverse_subtract_with_borrow_wraps() {
    let mut p = Processor::new();
    set(&mut p, 1, 0x05);
    set(&mut p, 2, 0x03);
    set(&mut p, 0xF, 1);
    assert_eq!(run(&mut p, 0x8127), Ok(Effect::Continue));
    assert_eq!(p.register(1), 0xFE);
    assert_eq!(p.register(2), 0x03);
    assert_eq!(p.register(0xF), 0);
}

#[test]
fn alu_reverse_subtract_of_equal_operands_sets_flag() {
    let mut p = Processor::new();
    set(&mut p, 1, 77);
    set(&mut p, 2, 77);
    assert_eq!(run(&mut p, 0x8127), Ok(Effect::Continue));
    assert_eq!(p.register(1), 0);
    assert_eq!(p.register(2), 77);
    assert_eq!(p.register(0xF), 1);
    set(&mut p, 3, 200);
    assert_eq!(run(&mut p, 0x8337), Ok(Effect::Continue));
    assert_eq!(p.register(3), 0);
    assert_eq!(p.register(0xF), 1);
}

#[test]
fn alu_reverse_subtract_for_all_operands() {
    let mut p = Processor::new();
    for a in 0..=255u8 {
        for b in 0..=255u8 {
            p.instruction_set(0xF, 0x33);
            p.instruction_set(4, a);
            p.instruction_set(9, b);
            p.instruction_alu_subtract_reverse(4, 9);
            assert_eq!(p.register(4), b.wrapping_sub(a));
            assert_eq!(p.register(9), b);
            assert_eq!(p.register(0xF), if b >= a { 1 } else { 0 });
        }
    }
}

#[test]
fn alu_reverse_subtract_into_flag_register() {
    let mut p = Processor::new();
    set(&mut p, 0xF, 4);
    set(&mut p, 2, 9);
    assert_eq!(run(&mut p, 0x8F27), Ok(Effect::Continue));
    assert_eq!(p.register(0xF), 5);
    assert_eq!(p.register(2), 9);
    set(&mut p, 0xF, 9);
    set(&mut p, 2, 4);
    assert_eq!(run(&mut p, 0x8F27), Ok(Effect::Continue));
    assert_eq!(p.register(0xF), 0);
    assert_eq!(p.register(2), 4);
}

#[test]
fn alu_subtract_into_flag_register() {
    let mut p = Processor::new();
    set(&mut p, 0xF, 9);
    set(&mut p, 2, 4);
    assert_eq!(run(&mut p, 0x8F25), Ok(Effect::Continue));
    assert_eq!(p.register(0xF), 5);
    set(&mut p, 0xF, 4);
    set(&mut p, 2, 9);
    assert_eq!(run(&mut p, 0x8F25), Ok(Effect::Continue));
    assert_eq!(p.register(0xF), 0);
}

#[test]
fn alu_shift_right_copies_vy_first() {
    let mut p = Processor::new();
    set(&mut p, 1, 0xFF);
    set(&mut p, 2, 0b0000_0101);
    assert_eq!(run(&mut p, 0x8126), Ok(Effect::Continue));
    assert_eq!(p.register(1), 0b0000_0010);
    assert_eq!(p.register(2), 0b0000_0101);
    assert_eq!(p.register(0xF), 1);
    set(&mut p, 2, 0b0000_0100);
    assert_eq!(run(&mut p, 0x8126), Ok(Effect::Continue));
    assert_eq!(p.register(1), 0b0000_0010);
    assert_eq!(p.register(0xF), 0);
}

#[test]
fn alu_shift_left_puts_high_bit_in_flag() {
    let mut p = Processor::new();
    set(&mut p, 2, 0b1100_0001);
    assert_eq!(run(&mut p, 0x812E), Ok(Effect::Continue));
    assert_eq!(p.register(1), 0b1000_0010);
    assert_eq!(p.register(2), 0b1100_0001);
    assert_eq!(p.register(0xF), 1);
    set(&mut p, 2, 0b0100_0001);
    assert_eq!(run(&mut p, 0x812E), Ok(Effect::Continue));
    assert_eq!(p.register(1), 0b1000_0010);
    assert_eq!(p.register(0xF), 0);
}

#[test]
fn alu_shift_for_all_values() {
    let mut p = Processor::new();
    for value in 0..=255u8 {
        p.instruction_set(7, value);
        p.instruction_alu_shift(3, 7, false);
        assert_eq!(p.register(3), value >> 1);
        assert_eq!(p.register(0xF), value & 1);
        p.instruction_alu_shift(3, 7, true);
        assert_eq!(p.register(3), value << 1);
        assert_eq!(p.register(0xF), value >> 7);
    }
}

#[test]
fn alu_shift_into_flag_register_keeps_shifted_value() {
    let mut p = Processor::new();
    set(&mut p, 2, 0b0000_0111);
    assert_eq!(run(&mut p, 0x8F26), Ok(Effect::Continue));
    assert_eq!(p.register(0xF), 0b0000_0011);
}

#[test]
fn jump_sets_program_counter() {
    let mut p = Processor::new();
    assert_eq!(run(&mut p, 0x1ABC), Ok(Effect::Continue));
    assert_eq!(p.pc(), 0xABC);
}

#[test]
fn jump_runs_wherever_the_program_counter_stands() {
    let mut p = Processor::new();
    assert_eq!(p.load_program(&[0x6A, 0x42]), Ok(()));
    for pc in [0xFFFDu16, 0xFFFE, 0xFFFF] {
        p.instruction_jmp(pc);
        assert_eq!(run(&mut p, 0x1200), Ok(Effect::Continue));
        assert_eq!(p.pc(), 0x200);
        assert_eq!(p.get_instruction(), Ok(0x6A42));
        assert_eq!(p.pc(), 0x202);
    }
    p.instruction_jmp(0xFFFF);
    assert_eq!(run(&mut p, 0x6B07), Ok(Effect::Continue));
    assert_eq!(p.register(0xB), 0x07);
    assert_eq!(run(&mut p, 0x2300), Ok(Effect::Continue));
    assert_eq!(p.pc(), 0x300);
    assert_eq!(run(&mut p, 0x00EE), Ok(Effect::Continue));
    assert_eq!(p.pc(), 0xFFFF);
}

#[test]
fn jump_then_fetch_reads_at_target() {
    let mut p = Processor::new();
    let mut program = vec![0u8; 0x104];
    program[0] = 0x13;
    program[1] = 0x00;
    program[0x100] = 0x6A;
    program[0x101] = 0x42;
    program[0x102] = 0x6B;
    program[0x103] = 0x99;
    assert_eq!(p.load_program(&program), Ok(()));
    assert_eq!(p.cycle(None), Ok(Effect::Continue));
    assert_eq!(p.pc(), 0x300);
    assert_eq!(p.cycle(None), Ok(Effect::Continue));
    assert_eq!(p.register(0xA), 0x42);
    assert_eq!(p.register(0xB), 0);
    assert_eq!(p.pc(), 0x302);
}

#[test]
fn jump_with_offset_adds_v0() {
    let mut p = Processor::new();
    set(&mut p, 0, 0x10);
    set(&mut p, 3, 0x80);
    assert_eq!(run(&mut p, 0xB300), Ok(Effect::Continue));
    assert_eq!(p.pc(), 0x310);
    set(&mut p, 0, 0xFF);
    assert_eq!(run(&mut p, 0xBFFF), Ok(Effect::Continue));
    assert_eq!(p.pc(), 0x10FE);
}

#[test]
fn call_then_return_resumes_after_call() {
    let mut p = Processor::new();
    let mut program = vec![0u8; 0x102];
    program[0] = 0x23;
    program[1] = 0x00;
    program[0x100] = 0x00;
    program[0x101] = 0xEE;
    assert_eq!(p.load_program(&program), Ok(()));
    assert_eq!(p.cycle(None), Ok(Effect::Continue));
    assert_eq!(p.pc(), 0x300);
    assert_eq!(p.stack_depth(), 1);
    assert_eq!(p.cycle(None), Ok(Effect::Continue));
    assert_eq!(p.pc(), 0x202);
    assert_eq!(p.stack_depth(), 0);
}

#[test]
fn nested_calls_return_in_reverse_order() {
    let mut p = Processor::new();
    p.instruction_jmp(0x210);
    assert_eq!(run(&mut p, 0x2300), Ok(Effect::Continue));
    p.instruction_jmp(0x320);
    assert_eq!(run(&mut p, 0x2400), Ok(Effect::Continue));
    assert_eq!(p.pc(), 0x400);
    assert_eq!(p.stack_depth(), 2);
    assert_eq!(run(&mut p, 0x00EE), Ok(Effect::Continue));
    assert_eq!(p.pc(), 0x320);
    assert_eq!(run(&mut p, 0x00EE), Ok(Effect::Continue));
    assert_eq!(p.pc(), 0x210);
    assert_eq!(p.stack_depth(), 0);
}

#[test]
fn seventeenth_call_overflows() {
    let mut p = Processor::new();
    for depth in 0..16u16 {
        assert_eq!(run(&mut p, 0x2300 + depth), Ok(Effect::Continue));
        assert_eq!(p.stack_depth(), depth as usize + 1);
    }
    assert_eq!(p.pc(), 0x30F);
    assert_eq!(run(&mut p, 0x2400), Err(Fault::StackOverflow));
    assert_eq!(p.pc(), 0x30F);
    assert_eq!(p.stack_depth(), 16);
    assert_eq!(p.instruction_call_subroutine(0x400), Err(Fault::StackOverflow));
    for depth in (0..16u16).rev() {
        assert_eq!(run(&mut p, 0x00EE), Ok(Effect::Continue));
        let expected = if depth == 0 { 0x200 } else { 0x300 + depth - 1 };
        assert_eq!(p.pc(), expected);
    }
    assert_eq!(p.stack_depth(), 0);
}

#[test]
fn return_on_empty_stack_underflows() {
    let mut p = Processor::new();
    assert_eq!(run(&mut p, 0x00EE), Err(Fault::StackUnderflow));
    assert_eq!(p.pc(), 0x200);
    assert_eq!(p.stack_depth(), 0);
    assert_eq!(p.instruction_return(), Err(Fault::StackUnderflow));
}

#[test]
fn skip_on_immediate() {
    let mut p = Processor::new();
    set(&mut p, 5, 0x42);
    assert_eq!(run(&mut p, 0x3542), Ok(Effect::Continue));
    assert_eq!(p.pc(), 0x202);
    assert_eq!(run(&mut p, 0x3543), Ok(Effect::Continue));
    assert_eq!(p.pc(), 0x202);
    assert_eq!(run(&mut p, 0x4543), Ok(Effect::Continue));
    assert_eq!(p.pc(), 0x204);
    assert_eq!(run(&mut p, 0x4542), Ok(Effect::Continue));
    assert_eq!(p.pc(), 0x204);
}

#[test]
fn skip_on_registers() {
    let mut p = Processor::new();
    set(&mut p, 1, 9);
    set(&mut p, 2, 9);
    set(&mut p, 3, 8);
    assert_eq!(run(&mut p, 0x5120), Ok(Effect::Continue));
    assert_eq!(p.pc(), 0x202);
    assert_eq!(run(&mut p, 0x5130), Ok(Effect::Continue));
    assert_eq!(p.pc(), 0x202);
    assert_eq!(run(&mut p, 0x9130), Ok(Effect::Continue));
    assert_eq!(p.pc(), 0x204);
    assert_eq!(run(&mut p, 0x9120), Ok(Effect::Continue));
    assert_eq!(p.pc(), 0x204);
}

#[test]
fn skip_on_key() {
    let mut p = Processor::new();
    set(&mut p, 4, 0xB);
    assert_eq!(run_with_key(&mut p, 0xE49E, 0xB), Ok(Effect::Continue));
    assert_eq!(p.pc(), 0x202);
    assert_eq!(run_with_key(&mut p, 0xE49E, 0x3), Ok(Effect::Continue));
    assert_eq!(p.pc(), 0x202);
    assert_eq!(run_with_key(&mut p, 0xE4A1, 0x3), Ok(Effect::Continue));
    assert_eq!(p.pc(), 0x204);
    assert_eq!(run_with_key(&mut p, 0xE4A1, 0xB), Ok(Effect::Continue));
    assert_eq!(p.pc(), 0x204);
}

#[test]
fn key_instructions_without_key_do_nothing() {
    let mut p = Processor::new();
    set(&mut p, 4, 0xB);
    assert_eq!(run(&mut p, 0xE49E), Ok(Effect::Continue));
    assert_eq!(p.pc(), 0x200);
    assert_eq!(run(&mut p, 0xE4A1), Ok(Effect::Continue));
    assert_eq!(p.pc(), 0x200);
    assert_eq!(p.register(4), 0xB);
}

#[test]
fn set_index_register() {
    let mut p = Processor::new();
    assert_eq!(run(&mut p, 0xA123), Ok(Effect::Continue));
    assert_eq!(p.index_register(), 0x123);
    assert_eq!(run(&mut p, 0xAFFF), Ok(Effect::Continue));
    assert_eq!(p.index_register(), 0xFFF);
}

#[test]
fn random_is_masked() {
    let mut p = Processor::new();
    for _ in 0..200 {
        set(&mut p, 3, 0xFF);
        assert_eq!(run(&mut p, 0xC300), Ok(Effect::Continue));
        assert_eq!(p.register(3), 0);
        assert_eq!(run(&mut p, 0xC30F), Ok(Effect::Continue));
        assert_eq!(p.register(3) & 0xF0, 0);
        assert_eq!(run(&mut p, 0xC381), Ok(Effect::Continue));
        assert_eq!(p.register(3) & 0x7E, 0);
    }
    assert_eq!(p.pc(), 0x200);
    assert_eq!(p.register(0xF), 0);
}

#[test]
fn random_takes_more_than_one_value() {
    let mut p = Processor::new();
    let mut seen = [false; 256];
    for _ in 0..4096 {
        p.instruction_random(1, 0xFF);
        seen[p.register(1) as usize] = true;
    }
    assert!(seen.iter().filter(|&&s| s).count() > 1);
}

#[test]
fn random_with_given_byte() {
    let mut p = Processor::new();
    p.instruction_random_with(2, 0xF0, 0xAB);
    assert_eq!(p.register(2), 0xA0);
    p.instruction_random_with(2, 0x0F, 0xAB);
    assert_eq!(p.register(2), 0x0B);
    p.instruction_random_with(2, 0xFF, 0xAB);
    assert_eq!(p.register(2), 0xAB);
    p.instruction_random_with(2, 0x00, 0xAB);
    assert_eq!(p.register(2), 0x00);
}

#[test]
fn unsupported_instruction_is_reported_and_skipped() {
    let mut p = Processor::new();
    set(&mut p, 1, 5);
    let before = registers(&p);
    assert_eq!(run(&mut p, 0xF107), Ok(Effect::Unsupported { instruction: 0xF107 }));
    assert_eq!(registers(&p), before);
    assert_eq!(p.pc(), 0x200);
    assert_eq!(p.load_program(&[0xF1, 0x07, 0x6A, 0x01]), Ok(()));
    assert_eq!(p.cycle(None), Ok(Effect::Unsupported { instruction: 0xF107 }));
    assert_eq!(p.pc(), 0x202);
    assert_eq!(p.cycle(None), Ok(Effect::Continue));
    assert_eq!(p.register(0xA), 1);
}

#[test]
fn draw_glyph_at_origin() {
    let mut p = Processor::new();
    assert_eq!(run(&mut p, 0xA000), Ok(Effect::Continue));
    assert_eq!(run(&mut p, 0xD005), Ok(Effect::Redraw));
    for r in 0..32 {
        for c in 0..64 {
            let expected = if r < 5 && c < 8 { (FONT_SET[r] >> (7 - c)) & 1 } else { 0 };
            assert_eq!(p.pixel(r, c), expected);
        }
    }
    assert_eq!(p.register(0xF), 0);
}

#[test]
fn draw_leftmost_pixel_is_highest_bit() {
    let mut p = Processor::new();
    assert_eq!(p.load_program(&[0x80, 0x01]), Ok(()));
    assert_eq!(run(&mut p, 0xA200), Ok(Effect::Continue));
    set(&mut p, 1, 10);
    set(&mut p, 2, 20);
    assert_eq!(run(&mut p, 0xD122), Ok(Effect::Redraw));
    assert_eq!(lit_pixels(&p), vec![(20, 10), (21, 17)]);
}

#[test]
fn draw_twice_collides_and_restores() {
    let mut p = Processor::new();
    assert_eq!(run(&mut p, 0xA000), Ok(Effect::Continue));
    set(&mut p, 1, 12);
    set(&mut p, 2, 7);
    assert_eq!(run(&mut p, 0xD125), Ok(Effect::Redraw));
    assert_eq!(p.register(0xF), 0);
    assert_eq!(lit_pixels(&p).len(), 14);
    assert_eq!(run(&mut p, 0xD125), Ok(Effect::Redraw));
    assert_eq!(p.register(0xF), 1);
    assert!(lit_pixels(&p).is_empty());
    assert_eq!(run(&mut p, 0xD125), Ok(Effect::Redraw));
    assert_eq!(p.register(0xF), 0);
    assert_eq!(lit_pixels(&p).len(), 14);
}

#[test]
fn draw_twice_restores_a_busy_screen() {
    let mut p = Processor::new();
    assert_eq!(run(&mut p, 0xA000), Ok(Effect::Continue));
    set(&mut p, 1, 3);
    set(&mut p, 2, 2);
    assert_eq!(run(&mut p, 0xD125), Ok(Effect::Redraw));
    let before = lit_pixels(&p);
    assert_eq!(run(&mut p, 0xA005), Ok(Effect::Continue));
    set(&mut p, 1, 5);
    set(&mut p, 2, 4);
    assert_eq!(run(&mut p, 0xD125), Ok(Effect::Redraw));
    assert_ne!(lit_pixels(&p), before);
    assert_eq!(run(&mut p, 0xD125), Ok(Effect::Redraw));
    assert_eq!(p.register(0xF), 1);
    assert_eq!(lit_pixels(&p), before);
}

#[test]
fn draw_partial_overlap_collides_once() {
    let mut p = Processor::new();
    assert_eq!(p.load_program(&[0xC0, 0x60]), Ok(()));
    assert_eq!(run(&mut p, 0xA200), Ok(Effect::Continue));
    assert_eq!(run(&mut p, 0xD001), Ok(Effect::Redraw));
    assert_eq!(lit_pixels(&p), vec![(0, 0), (0, 1)]);
    assert_eq!(run(&mut p, 0xA201), Ok(Effect::Continue));
    assert_eq!(run(&mut p, 0xD001), Ok(Effect::Redraw));
    assert_eq!(lit_pixels(&p), vec![(0, 0), (0, 2)]);
    assert_eq!(p.register(0xF), 1);
}

#[test]
fn draw_without_collision_resets_flag() {
    let mut p = Processor::new();
    set(&mut p, 0xF, 1);
    assert_eq!(run(&mut p, 0xA000), Ok(Effect::Continue));
    assert_eq!(run(&mut p, 0xD015), Ok(Effect::Redraw));
    assert_eq!(p.register(0xF), 0);
}

#[test]
fn draw_of_blank_sprite_on_cleared_screen() {
    let mut p = Processor::new();
    assert_eq!(run(&mut p, 0xA000), Ok(Effect::Continue));
    assert_eq!(run(&mut p, 0xD005), Ok(Effect::Redraw));
    assert_eq!(run(&mut p, 0x00E0), Ok(Effect::Continue));
    assert!(lit_pixels(&p).is_empty());
    set(&mut p, 0xF, 1);
    set(&mut p, 1, 61);
    set(&mut p, 2, 29);
    assert_eq!(run(&mut p, 0xA100), Ok(Effect::Continue));
    assert_eq!(run(&mut p, 0xD12F), Ok(Effect::Redraw));
    assert!(lit_pixels(&p).is_empty());
    assert_eq!(p.register(0xF), 0);
}

#[test]
fn draw_wraps_pixel_by_pixel() {
    let mut p = Processor::new();
    assert_eq!(run(&mut p, 0xA000), Ok(Effect::Continue));
    set(&mut p, 1, 62);
    set(&mut p, 2, 30);
    assert_eq!(run(&mut p, 0xD125), Ok(Effect::Redraw));
    let expected = vec![
        (0, 1),
        (0, 62),
        (1, 1),
        (1, 62),
        (2, 0),
        (2, 1),
        (2, 62),
        (2, 63),
        (30, 0),
        (30, 1),
        (30, 62),
        (30, 63),
        (31, 1),
        (31, 62),
    ];
    assert_eq!(lit_pixels(&p), expected);
}

#[test]
fn draw_reduces_large_coordinates() {
    let mut p = Processor::new();
    assert_eq!(p.load_program(&[0x80]), Ok(()));
    assert_eq!(run(&mut p, 0xA200), Ok(Effect::Continue));
    set(&mut p, 1, 200);
    set(&mut p, 2, 100);
    assert_eq!(run(&mut p, 0xD121), Ok(Effect::Redraw));
    assert_eq!(lit_pixels(&p), vec![(4, 8)]);
    set(&mut p, 1, 255);
    set(&mut p, 2, 255);
    assert_eq!(run(&mut p, 0xD121), Ok(Effect::Redraw));
    assert_eq!(lit_pixels(&p), vec![(4, 8), (31, 63)]);
}

#[test]
fn draw_of_no_rows_changes_only_the_flag() {
    let mut p = Processor::new();
    set(&mut p, 0xF, 1);
    assert_eq!(run(&mut p, 0xAFFF), Ok(Effect::Continue));
    assert_eq!(run(&mut p, 0xD000), Ok(Effect::Redraw));
    assert!(lit_pixels(&p).is_empty());
    assert_eq!(p.register(0xF), 0);
}

#[test]
fn draw_beyond_memory_is_a_fault() {
    let mut p = Processor::new();
    let mut program = vec![0u8; 3584];
    program[3583] = 0xFF;
    assert_eq!(p.load_program(&program), Ok(()));
    set(&mut p, 0xF, 1);
    assert_eq!(run(&mut p, 0xAFFF), Ok(Effect::Continue));
    assert_eq!(run(&mut p, 0xD002), Err(Fault::AddressOutOfRange));
    assert!(lit_pixels(&p).is_empty());
    assert_eq!(p.register(0xF), 1);
    assert_eq!(run(&mut p, 0xD001), Ok(Effect::Redraw));
    assert_eq!(lit_pixels(&p).len(), 8);
    assert_eq!(p.register(0xF), 0);
}

#[test]
fn draw_with_flag_register_as_coordinate() {
    let mut p = Processor::new();
    assert_eq!(p.load_program(&[0x80]), Ok(()));
    assert_eq!(run(&mut p, 0xA200), Ok(Effect::Continue));
    set(&mut p, 0xF, 9);
    set(&mut p, 1, 3);
    assert_eq!(run(&mut p, 0xDF11), Ok(Effect::Redraw));
    assert_eq!(lit_pixels(&p), vec![(3, 9)]);
    assert_eq!(p.register(0xF), 0);
}

#[test]
fn display_snapshot_matches_pixels() {
    let mut p = Processor::new();
    assert_eq!(run(&mut p, 0xA00A), Ok(Effect::Continue));
    set(&mut p, 1, 17);
    set(&mut p, 2, 9);
    assert_eq!(run(&mut p, 0xD125), Ok(Effect::Redraw));
    let frame = *p.display();
    for r in 0..32 {
        for c in 0..64 {
            assert_eq!(frame[r][c], p.pixel(r, c));
            assert!(frame[r][c] <= 1);
        }
    }
    assert_eq!(frame[9][17], 1);
}

#[test]
fn clear_screen_turns_every_pixel_off() {
    let mut p = Processor::new();
    assert_eq!(run(&mut p, 0xA000), Ok(Effect::Continue));
    assert_eq!(run(&mut p, 0xD005), Ok(Effect::Redraw));
    set(&mut p, 0xF, 1);
    assert_eq!(run(&mut p, 0x00E0), Ok(Effect::Continue));
    assert!(lit_pixels(&p).is_empty());
    assert_eq!(p.register(0xF), 1);
    assert_eq!(p.index_register(), 0);
}

#[test]
fn end_to_end_clear_point_draw_loop() {
    let mut p = Processor::new();
    assert_eq!(
        p.load_program(&[0x00, 0xE0, 0xA0, 0x00, 0xD0, 0x05, 0x12, 0x00]),
        Ok(())
    );
    assert_eq!(p.cycle(None), Ok(Effect::Continue));
    assert_eq!(p.cycle(None), Ok(Effect::Continue));
    assert_eq!(p.cycle(None), Ok(Effect::Redraw));
    assert_eq!(p.cycle(None), Ok(Effect::Continue));
    assert_eq!(p.pc(), 0x200);
    for r in 0..32 {
        for c in 0..64 {
            let expected = if r < 5 && c < 8 { (FONT_SET[r] >> (7 - c)) & 1 } else { 0 };
            assert_eq!(p.pixel(r, c), expected);
        }
    }
    let glyph_zero: [[u8; 8]; 5] = [
        [1, 1, 1, 1, 0, 0, 0, 0],
        [1, 0, 0, 1, 0, 0, 0, 0],
        [1, 0, 0, 1, 0, 0, 0, 0],
        [1, 0, 0, 1, 0, 0, 0, 0],
        [1, 1, 1, 1, 0, 0, 0, 0],
    ];
    for r in 0..5 {
        for c in 0..8 {
            assert_eq!(p.pixel(r, c), glyph_zero[r][c]);
        }
    }
    assert_eq!(p.register(0xF), 0);
    assert_eq!(p.index_register(), 0);
    assert_eq!(p.stack_depth(), 0);
}

#[test]
fn end_to_end_second_pass_draws_the_same() {
    let mut p = Processor::new();
    assert_eq!(
        p.load_program(&[0x00, 0xE0, 0xA0, 0x00, 0xD0, 0x05, 0x12, 0x00]),
        Ok(())
    );
    for _ in 0..4 {
        assert!(p.cycle(None).is_ok());
    }
    let first = lit_pixels(&p);
    assert_eq!(first.len(), 14);
    for _ in 0..4 {
        assert!(p.cycle(None).is_ok());
    }
    assert_eq!(lit_pixels(&p), first);
    assert_eq!(p.register(0xF), 0);
    assert_eq!(p.pc(), 0x200);
}

#[test]
fn instructions_leave_memory_alone() {
    let mut p = Processor::new();
    assert_eq!(p.load_program(&[0x61, 0x05, 0x81, 0x14, 0xA0, 0x05, 0xD1, 0x15]), Ok(()));
    let before: Vec<u8> = (0..4096).map(|a| p.memory(a)).collect();
    for _ in 0..4 {
        assert!(p.cycle(None).is_ok());
    }
    let after: Vec<u8> = (0..4096).map(|a| p.memory(a)).collect();
    assert_eq!(after, before);
}

#[test]
fn timers_stay_at_zero() {
    let mut p = Processor::new();
    p.tick_timers();
    assert_eq!(p.delay_timer(), 0);
    assert_eq!(p.sound_timer(), 0);
    assert_eq!(p.pc(), 0x200);
}
