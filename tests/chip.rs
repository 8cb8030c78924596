use chip::{Chip, Exception, ENTRY_ADDR, MEM_SIZE};

fn words(ws: &[u16]) -> Vec<u8> {
    let mut out = Vec::new();
    for w in ws {
        out.push((w >> 8) as u8);
        out.push((w & 0xFF) as u8);
    }
    out
}

fn machine_with(ws: &[u16]) -> Chip {
    let mut cpu = Chip::new(0);
    cpu.load_rom(ENTRY_ADDR, &words(ws)).unwrap();
    cpu
}

fn run(cpu: &mut Chip, n: usize) {
    for _ in 0..n {
        cpu.tick().unwrap();
    }
}

#[test]
fn test_load_rom() {
    let mut cpu = Chip::new(0);
    let offset = rand::random::<usize>() % (MEM_SIZE - 8);
    cpu.load_rom(offset as u16, &[1u8, 2, 3, 4, 5, 6, 7, 8]).unwrap();
    assert_eq!(cpu.memory()[offset..offset + 8], [1u8, 2, 3, 4, 5, 6, 7, 8]);
}

#[test]
fn test_reg_op() {
    let mut cpu = Chip::new(0);
    cpu.load_rom(
        ENTRY_ADDR,
        &[
            0x60, 0x0F, // V0 = 15
            0x81, 0x00, // V1 = V0 => V1 = 15
            0x70, 0x0A, // V0 += 10 => V0 = 25
            0x80, 0x11, // V0 |= V1 => V0 = 31
        ],
    )
    .unwrap();

    cpu.tick().unwrap();
    assert_eq!(cpu.registers()[0], 15);
    cpu.tick().unwrap();
    assert_eq!(cpu.registers()[1], 15);
    cpu.tick().unwrap();
    assert_eq!(cpu.registers()[0], 25);
    cpu.tick().unwrap();
    assert_eq!(cpu.registers()[0], 31);
}

#[test]
fn load_fits_exactly_at_the_end() {
    let mut cpu = Chip::new(0);
    assert_eq!(cpu.load_rom(4088, &[9u8; 8]), Ok(()));
    assert_eq!(cpu.memory()[4095], 9);
    assert_eq!(cpu.load_rom(4096, &[]), Ok(()));
}

#[test]
fn load_past_the_end_fails() {
    let mut cpu = Chip::new(0);
    let before = cpu.memory().to_vec();
    assert_eq!(cpu.load_rom(4089, &[9u8; 8]), Err(Exception::OutOfMemory(8)));
    assert_eq!(cpu.load_rom(5000, &[1u8]), Err(Exception::OutOfMemory(1)));
    assert_eq!(cpu.memory(), &before[..]);
}

#[test]
fn new_machine_state() {
    let cpu = Chip::new(3);
    assert_eq!(cpu.program_counter(), 0x200);
    assert_eq!(cpu.memory()[0..5], [0xF0, 0x90, 0x90, 0x90, 0xF0]);
    assert_eq!(cpu.memory()[75..80], [0xF0, 0x80, 0xF0, 0x80, 0x80]);
    assert!(cpu.memory()[80..].iter().all(|b| *b == 0));
    assert!(cpu.framebuffer().iter().all(|p| !*p));
    assert_eq!(cpu.framebuffer().len(), 2048);
    assert!(!cpu.tone());
}

#[test]
fn reset_matches_new() {
    let prog = words(&[0xC0FF, 0xC1FF, 0xC2FF, 0x6305, 0xF315, 0xF318, 0x2400]);
    let mut used = Chip::new(99);
    used.load_rom(ENTRY_ADDR, &prog).unwrap();
    used.set_keypad(4, true);
    run(&mut used, 7);
    used.reset(7);
    let fresh = Chip::new(7);
    assert_eq!(used.memory(), fresh.memory());
    assert_eq!(used.registers(), fresh.registers());
    assert_eq!(used.stack(), fresh.stack());
    assert_eq!(used.keypad(), fresh.keypad());
    assert_eq!(used.framebuffer(), fresh.framebuffer());
    assert_eq!(used.program_counter(), fresh.program_counter());
    assert_eq!(used.index(), fresh.index());
    assert_eq!(used.stack_pointer(), 0);
    assert_eq!(used.delay_timer(), 0);
    assert_eq!(used.sound_timer(), 0);

    let mut a = used;
    let mut b = fresh;
    a.load_rom(ENTRY_ADDR, &prog).unwrap();
    b.load_rom(ENTRY_ADDR, &prog).unwrap();
    run(&mut a, 3);
    run(&mut b, 3);
    assert_eq!(a.registers()[0..3], b.registers()[0..3]);
}

#[test]
fn add_with_carry_overflows() {
    let mut cpu = machine_with(&[0x60C8, 0x6164, 0x8014]);
    run(&mut cpu, 3);
    assert_eq!(cpu.registers()[0], 44);
    assert_eq!(cpu.registers()[15], 1);
}

#[test]
fn add_with_carry_no_overflow() {
    let mut cpu = machine_with(&[0x6F07, 0x6064, 0x6196, 0x8014]);
    run(&mut cpu, 4);
    assert_eq!(cpu.registers()[0], 250);
    assert_eq!(cpu.registers()[15], 0);
}

#[test]
fn subtract_borrow_flag() {
    let mut cpu = machine_with(&[0x6005, 0x610A, 0x8015, 0x620A, 0x6305, 0x8235, 0x6407, 0x6407, 0x8444]);
    run(&mut cpu, 3);
    assert_eq!(cpu.registers()[0], 251);
    assert_eq!(cpu.registers()[15], 0);
    run(&mut cpu, 3);
    assert_eq!(cpu.registers()[2], 5);
    assert_eq!(cpu.registers()[15], 1);
}

#[test]
fn subtract_equal_values_sets_flag() {
    let mut cpu = machine_with(&[0x6009, 0x6109, 0x8015]);
    run(&mut cpu, 3);
    assert_eq!(cpu.registers()[0], 0);
    assert_eq!(cpu.registers()[15], 1);
}

#[test]
fn reverse_subtract() {
    let mut cpu = machine_with(&[0x600A, 0x6103, 0x8017]);
    run(&mut cpu, 3);
    assert_eq!(cpu.registers()[0], 249);
    assert_eq!(cpu.registers()[15], 0);
}

#[test]
fn shifts_set_flag_from_lost_bit() {
    let mut cpu = machine_with(&[0x6081, 0x8006, 0x6181, 0x811E]);
    run(&mut cpu, 2);
    assert_eq!(cpu.registers()[0], 0x40);
    assert_eq!(cpu.registers()[15], 1);
    run(&mut cpu, 2);
    assert_eq!(cpu.registers()[1], 0x02);
    assert_eq!(cpu.registers()[15], 1);
}

#[test]
fn logic_ops() {
    let mut cpu = machine_with(&[0x60F0, 0x613C, 0x8202, 0x8012, 0x6255, 0x6355, 0x8233]);
    run(&mut cpu, 4);
    assert_eq!(cpu.registers()[0], 0x30);
    run(&mut cpu, 3);
    assert_eq!(cpu.registers()[2], 0);
}

#[test]
fn add_immediate_wraps_without_flag() {
    let mut cpu = machine_with(&[0x60FF, 0x7002]);
    run(&mut cpu, 2);
    assert_eq!(cpu.registers()[0], 1);
    assert_eq!(cpu.registers()[15], 0);
}

#[test]
fn draw_twice_clears_and_flags() {
    // I = 0x300, memory[0x300] = 0xFF, draw 1 row at (0,0) twice
    let mut cpu = machine_with(&[0xA300, 0xD011, 0xD011]);
    cpu.load_rom(0x300, &[0xFF]).unwrap();
    run(&mut cpu, 2);
    assert!(cpu.framebuffer()[0..8].iter().all(|p| *p));
    assert_eq!(cpu.registers()[15], 0);
    run(&mut cpu, 1);
    assert!(cpu.framebuffer().iter().all(|p| !*p));
    assert_eq!(cpu.registers()[15], 1);
}

#[test]
fn draw_wraps_horizontally() {
    let mut cpu = machine_with(&[0xA300, 0x603C, 0x6100, 0xD011]);
    cpu.load_rom(0x300, &[0xFF]).unwrap();
    run(&mut cpu, 4);
    let fb = cpu.framebuffer();
    for col in 0..64 {
        let on = col >= 60 || col <= 3;
        assert_eq!(fb[col], on, "column {}", col);
    }
}

#[test]
fn draw_wraps_vertically() {
    let mut cpu = machine_with(&[0xA300, 0x6000, 0x611F, 0xD012]);
    cpu.load_rom(0x300, &[0x80, 0x80]).unwrap();
    run(&mut cpu, 4);
    let fb = cpu.framebuffer();
    assert!(fb[31 * 64]);
    assert!(fb[0]);
    assert_eq!(fb.iter().filter(|p| **p).count(), 2);
}

#[test]
fn draw_font_glyph() {
    let mut cpu = machine_with(&[0x6A0A, 0xFA29, 0x6000, 0xD005]);
    run(&mut cpu, 4);
    assert_eq!(cpu.index(), 50);
    let fb = cpu.framebuffer();
    // glyph A: F0 90 F0 90 90
    assert!(fb[0] && fb[1] && fb[2] && fb[3] && !fb[4]);
    assert!(fb[64] && !fb[65] && !fb[66] && fb[67]);
}

#[test]
fn clear_screen() {
    let mut cpu = machine_with(&[0xA300, 0xD011, 0x00E0]);
    cpu.load_rom(0x300, &[0xFF]).unwrap();
    run(&mut cpu, 3);
    assert!(cpu.framebuffer().iter().all(|p| !*p));
}

#[test]
fn sixteen_calls_then_overflow() {
    // each instruction at 0x200 + 2k calls the next one
    let mut prog = Vec::new();
    for k in 0..17u16 {
        prog.push(0x2000 | (0x202 + 2 * k));
    }
    let mut cpu = machine_with(&prog);
    run(&mut cpu, 16);
    assert_eq!(cpu.stack_pointer(), 16);
    assert_eq!(cpu.tick(), Err(Exception::StackOverflow(16)));
    assert_eq!(cpu.stack_pointer(), 16);
}

#[test]
fn return_on_empty_stack() {
    let mut cpu = machine_with(&[0x00EE]);
    assert_eq!(cpu.tick(), Err(Exception::StackUnderflow(0)));
}

#[test]
fn call_and_return() {
    let mut cpu = machine_with(&[0x2206, 0x6001, 0x0000, 0x6107, 0x00EE]);
    run(&mut cpu, 1);
    assert_eq!(cpu.program_counter(), 0x206);
    assert_eq!(cpu.stack()[0], 0x202);
    run(&mut cpu, 2);
    assert_eq!(cpu.program_counter(), 0x202);
    assert_eq!(cpu.stack_pointer(), 0);
    run(&mut cpu, 1);
    assert_eq!(cpu.registers()[0], 1);
    assert_eq!(cpu.registers()[1], 7);
}

#[test]
fn bcd_of_234() {
    let mut cpu = machine_with(&[0x60EA, 0xA400, 0xF033]);
    run(&mut cpu, 3);
    assert_eq!(cpu.memory()[0x400..0x403], [2, 3, 4]);
}

#[test]
fn bcd_past_the_end_fails() {
    let mut cpu = machine_with(&[0xAFFE, 0xF033]);
    run(&mut cpu, 1);
    assert_eq!(cpu.tick(), Err(Exception::OutOfMemory(4096)));
}

#[test]
fn delay_timer_counts_down_to_zero() {
    let mut cpu = machine_with(&[0x6005, 0xF015, 0x0000, 0x0000, 0x0000, 0x0000, 0x0000, 0x0000]);
    run(&mut cpu, 2);
    assert_eq!(cpu.delay_timer(), 5);
    for left in (0..5).rev() {
        cpu.tick().unwrap();
        assert_eq!(cpu.delay_timer(), left);
    }
    cpu.tick().unwrap();
    assert_eq!(cpu.delay_timer(), 0);
}

#[test]
fn sound_timer_drives_tone() {
    let mut cpu = machine_with(&[0x6002, 0xF018, 0x0000, 0x0000]);
    run(&mut cpu, 2);
    assert!(cpu.tone());
    run(&mut cpu, 1);
    assert!(cpu.tone());
    run(&mut cpu, 1);
    assert!(!cpu.tone());
}

#[test]
fn read_delay_timer() {
    let mut cpu = machine_with(&[0x6009, 0xF015, 0xF107]);
    run(&mut cpu, 3);
    assert_eq!(cpu.registers()[1], 8);
}

#[test]
fn skip_if_equal_registers_is_legal() {
    let mut cpu = machine_with(&[0x5001]);
    assert_eq!(cpu.tick(), Ok(()));
    assert_eq!(cpu.program_counter(), 0x204);
}

#[test]
fn unmapped_system_word_is_illegal() {
    let mut cpu = machine_with(&[0x0123]);
    assert_eq!(cpu.tick(), Err(Exception::IllegalOpcode(0x0123)));
}

#[test]
fn other_illegal_words() {
    for w in [0x8008u16, 0xE0FF, 0xF0FF] {
        let mut cpu = machine_with(&[w]);
        assert_eq!(cpu.tick(), Err(Exception::IllegalOpcode(w)));
    }
}

#[test]
fn skips_on_immediates() {
    let mut cpu = machine_with(&[0x6007, 0x3007, 0x0000, 0x4007, 0x0000]);
    run(&mut cpu, 2);
    assert_eq!(cpu.program_counter(), 0x206);
    run(&mut cpu, 1);
    assert_eq!(cpu.program_counter(), 0x208);
}

#[test]
fn skip_if_registers_differ() {
    let mut cpu = machine_with(&[0x6001, 0x9010]);
    run(&mut cpu, 2);
    assert_eq!(cpu.program_counter(), 0x206);
}

#[test]
fn jump_with_offset_out_of_range() {
    let mut cpu = machine_with(&[0x60FF, 0xBFFF]);
    run(&mut cpu, 1);
    assert_eq!(cpu.tick(), Err(Exception::IllegalAddress(0x10FE)));
}

#[test]
fn jump_with_offset() {
    let mut cpu = machine_with(&[0x6010, 0xB300]);
    run(&mut cpu, 2);
    assert_eq!(cpu.program_counter(), 0x310);
}

#[test]
fn fetch_past_the_end() {
    let mut cpu = machine_with(&[0x1FFE]);
    run(&mut cpu, 2);
    assert_eq!(cpu.program_counter(), 0x1000);
    assert_eq!(cpu.tick(), Err(Exception::OutOfMemory(0x1000)));
    let mut odd = machine_with(&[0x1FFF]);
    run(&mut odd, 1);
    assert_eq!(odd.tick(), Err(Exception::OutOfMemory(0xFFF)));
}

#[test]
fn store_and_load_registers_inclusive() {
    let mut cpu = machine_with(&[0x6001, 0x6102, 0x6203, 0xA400, 0xF255, 0x6000, 0x6100, 0x6200, 0xF165]);
    run(&mut cpu, 5);
    assert_eq!(cpu.memory()[0x400..0x404], [1, 2, 3, 0]);
    run(&mut cpu, 4);
    assert_eq!(cpu.registers()[0..3], [1, 2, 0]);
}

#[test]
fn store_registers_past_the_end() {
    let mut cpu = machine_with(&[0xAFFF, 0xF155]);
    run(&mut cpu, 1);
    let before = cpu.memory().to_vec();
    assert_eq!(cpu.tick(), Err(Exception::IllegalAddress(4096)));
    assert_eq!(cpu.memory(), &before[..]);
}

#[test]
fn load_registers_past_the_end() {
    let mut cpu = machine_with(&[0xAFFF, 0xF165]);
    run(&mut cpu, 1);
    assert_eq!(cpu.tick(), Err(Exception::IllegalAddress(4096)));
}

#[test]
fn index_add() {
    let mut cpu = machine_with(&[0xA100, 0x6010, 0xF01E]);
    run(&mut cpu, 3);
    assert_eq!(cpu.index(), 0x110);
}

#[test]
fn random_with_zero_mask_is_zero() {
    let mut cpu = machine_with(&[0x6077, 0xC000]);
    run(&mut cpu, 2);
    assert_eq!(cpu.registers()[0], 0);
}

#[test]
fn random_is_reduced_modulo_nn() {
    let mut cpu = machine_with(&[0xC003, 0xC103, 0xC203, 0xC303]);
    run(&mut cpu, 4);
    assert!(cpu.registers()[0..4].iter().all(|r| *r < 3));
}

#[test]
fn same_seed_same_random_bytes() {
    let prog = [0xC0FF, 0xC1FF, 0xC2FF, 0xC3FF];
    let mut a = Chip::new(42);
    let mut b = Chip::new(42);
    a.load_rom(ENTRY_ADDR, &words(&prog)).unwrap();
    b.load_rom(ENTRY_ADDR, &words(&prog)).unwrap();
    run(&mut a, 4);
    run(&mut b, 4);
    assert_eq!(a.registers(), b.registers());
}

#[test]
fn tick_with_given_random_byte() {
    let mut cpu = machine_with(&[0xC00A]);
    cpu.tick_with(0xFF).unwrap();
    assert_eq!(cpu.registers()[0], 5);
}

#[test]
fn key_skips_use_lowest_pressed_key() {
    let mut cpu = machine_with(&[0x6005, 0xE09E, 0x0000, 0xE0A1, 0x0000]);
    cpu.set_keypad(5, true);
    cpu.set_keypad(9, true);
    run(&mut cpu, 2);
    assert_eq!(cpu.program_counter(), 0x206);
    run(&mut cpu, 1);
    assert_eq!(cpu.program_counter(), 0x208);

    let mut low = machine_with(&[0x6009, 0xE09E, 0x0000]);
    low.set_keypad(5, true);
    low.set_keypad(9, true);
    run(&mut low, 2);
    assert_eq!(low.program_counter(), 0x204);
}

#[test]
fn key_not_pressed_skip_needs_a_key() {
    let mut cpu = machine_with(&[0x6005, 0xE0A1]);
    run(&mut cpu, 2);
    assert_eq!(cpu.program_counter(), 0x204);
}

#[test]
fn wait_for_key_repeats_until_pressed() {
    let mut cpu = machine_with(&[0x6003, 0xF00A, 0x6107]);
    run(&mut cpu, 2);
    assert_eq!(cpu.program_counter(), 0x202);
    run(&mut cpu, 1);
    assert_eq!(cpu.program_counter(), 0x202);
    cpu.set_keypad(3, true);
    run(&mut cpu, 1);
    assert_eq!(cpu.program_counter(), 0x204);
    run(&mut cpu, 1);
    assert_eq!(cpu.registers()[1], 7);
}

#[test]
fn set_keypad_ignores_out_of_range() {
    let mut cpu = Chip::new(0);
    cpu.set_keypad(16, true);
    cpu.set_keypad(200, true);
    assert!(cpu.keypad().iter().all(|k| !*k));
    cpu.set_keypad(15, true);
    assert!(cpu.keypad()[15]);
    cpu.set_keypad(15, false);
    assert!(!cpu.keypad()[15]);
}
