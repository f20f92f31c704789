use chip8::chip::Chip;
use chip8::display::display_trait::Ch8Display;
use chip8::display::terminal::TerminalDisplay;
use chip8::error::ChipError;
use chip8::nibble::Nibble;
use chip8::opcode::Opcode;
use chip8::quirks::Quirks;

fn nib(v: u8) -> Nibble {
    Nibble::from_low(v)
}

fn machine() -> Chip<TerminalDisplay> {
    Chip::new(TerminalDisplay::new())
}

fn set(chip: &mut Chip<TerminalDisplay>, x: u8, value: u8) {
    assert_eq!(chip.execute_with(Opcode::LDByte { x: nib(x), byte: value }, 0), Ok(()));
}

fn reg(chip: &Chip<TerminalDisplay>, x: u8) -> u8 {
    chip.registers.get(nib(x))
}

#[test]
fn test_add_for_all_byte_pairs() {
    let mut chip = machine();
    for a in 0..=255u8 {
        for b in 0..=255u8 {
            set(&mut chip, 1, a);
            set(&mut chip, 2, b);
            assert_eq!(chip.execute_with(Opcode::ADD { x: nib(1), y: nib(2) }, 0), Ok(()));
            assert_eq!(reg(&chip, 1) as u16, (a as u16 + b as u16) % 256);
            assert_eq!(reg(&chip, 0xF), if a as u16 + b as u16 > 255 { 1 } else { 0 });
            assert_eq!(reg(&chip, 2), b);
        }
    }
}

#[test]
fn test_sub_for_all_byte_pairs() {
    let mut chip = machine();
    for a in 0..=255u8 {
        for b in 0..=255u8 {
            set(&mut chip, 1, a);
            set(&mut chip, 2, b);
            assert_eq!(chip.execute_with(Opcode::SUB { x: nib(1), y: nib(2) }, 0), Ok(()));
            assert_eq!(reg(&chip, 1), a.wrapping_sub(b));
            assert_eq!(reg(&chip, 0xF), if a >= b { 1 } else { 0 });
        }
    }
}

#[test]
fn test_subn_reverses_the_operands() {
    let mut chip = machine();
    set(&mut chip, 1, 10);
    set(&mut chip, 2, 30);
    assert_eq!(chip.execute_with(Opcode::SUBN { x: nib(1), y: nib(2) }, 0), Ok(()));
    assert_eq!(reg(&chip, 1), 20);
    assert_eq!(reg(&chip, 0xF), 1);
    set(&mut chip, 1, 30);
    set(&mut chip, 2, 10);
    assert_eq!(chip.execute_with(Opcode::SUBN { x: nib(1), y: nib(2) }, 0), Ok(()));
    assert_eq!(reg(&chip, 1), 236);
    assert_eq!(reg(&chip, 0xF), 0);
}

#[test]
fn test_shifts_for_all_bytes() {
    let mut chip = machine();
    set(&mut chip, 5, 0xFF);
    for v in 0..=255u8 {
        set(&mut chip, 4, v);
        assert_eq!(chip.execute_with(Opcode::SHR { x: nib(4), y: nib(5) }, 0), Ok(()));
        assert_eq!(reg(&chip, 4), v >> 1);
        assert_eq!(reg(&chip, 0xF), v & 1);
        set(&mut chip, 4, v);
        assert_eq!(chip.execute_with(Opcode::SHL { x: nib(4), y: nib(5) }, 0), Ok(()));
        assert_eq!(reg(&chip, 4) as u16, ((v as u16) << 1) % 256);
        assert_eq!(reg(&chip, 0xF), (v >> 7) & 1);
    }
}

#[test]
fn test_flag_register_as_destination() {
    let mut chip = machine();
    set(&mut chip, 0xF, 200);
    set(&mut chip, 1, 100);
    assert_eq!(chip.execute_with(Opcode::ADD { x: nib(0xF), y: nib(1) }, 0), Ok(()));
    assert_eq!(reg(&chip, 0xF), 1);
    set(&mut chip, 0xF, 7);
    assert_eq!(chip.execute_with(Opcode::SHR { x: nib(0xF), y: nib(0) }, 0), Ok(()));
    assert_eq!(reg(&chip, 0xF), 3);
}

#[test]
fn test_immediate_add_wraps_and_leaves_the_flag() {
    let mut chip = machine();
    set(&mut chip, 3, 250);
    assert_eq!(chip.execute_with(Opcode::ADDByte { x: nib(3), byte: 10 }, 0), Ok(()));
    assert_eq!(reg(&chip, 3), 4);
    assert_eq!(reg(&chip, 0xF), 0);
    set(&mut chip, 0xF, 1);
    assert_eq!(chip.execute_with(Opcode::ADDByte { x: nib(3), byte: 10 }, 0), Ok(()));
    assert_eq!(reg(&chip, 3), 14);
    assert_eq!(reg(&chip, 0xF), 1);
    assert_eq!(chip.execute_with(Opcode::ADDByte { x: nib(0xF), byte: 255 }, 0), Ok(()));
    assert_eq!(reg(&chip, 0xF), 0);
}

#[test]
fn test_bitwise_and_load() {
    let mut chip = machine();
    set(&mut chip, 1, 0b1100);
    set(&mut chip, 2, 0b1010);
    assert_eq!(chip.execute_with(Opcode::OR { x: nib(1), y: nib(2) }, 0), Ok(()));
    assert_eq!(reg(&chip, 1), 0b1110);
    set(&mut chip, 1, 0b1100);
    assert_eq!(chip.execute_with(Opcode::AND { x: nib(1), y: nib(2) }, 0), Ok(()));
    assert_eq!(reg(&chip, 1), 0b1000);
    set(&mut chip, 1, 0b1100);
    assert_eq!(chip.execute_with(Opcode::XOR { x: nib(1), y: nib(2) }, 0), Ok(()));
    assert_eq!(reg(&chip, 1), 0b0110);
    assert_eq!(chip.execute_with(Opcode::LDReg { x: nib(5), y: nib(2) }, 0), Ok(()));
    assert_eq!(reg(&chip, 5), 0b1010);
}

#[test]
fn test_bcd_of_234() {
    let mut chip = machine();
    set(&mut chip, 3, 234);
    assert_eq!(chip.execute_with(Opcode::LDI { addr: 0x300 }, 0), Ok(()));
    assert_eq!(chip.execute_with(Opcode::LDB { x: nib(3) }, 0), Ok(()));
    assert_eq!(chip.memory.read(0x300), 2);
    assert_eq!(chip.memory.read(0x301), 3);
    assert_eq!(chip.memory.read(0x302), 4);
    assert_eq!(chip.memory.read(0x303), 0);
    assert_eq!(chip.memory.read(0x2FF), 0);
    assert_eq!(chip.registers.get_i(), 0x300);
}

#[test]
fn test_bcd_of_small_values() {
    let mut chip = machine();
    assert_eq!(chip.execute_with(Opcode::LDI { addr: 0x400 }, 0), Ok(()));
    set(&mut chip, 0, 7);
    assert_eq!(chip.execute_with(Opcode::LDB { x: nib(0) }, 0), Ok(()));
    assert_eq!(chip.memory.slice(0x400, 0x403), &[0, 0, 7]);
    set(&mut chip, 0, 255);
    assert_eq!(chip.execute_with(Opcode::LDB { x: nib(0) }, 0), Ok(()));
    assert_eq!(chip.memory.slice(0x400, 0x403), &[2, 5, 5]);
}

#[test]
fn test_block_store_and_load_are_inclusive() {
    let mut chip = machine();
    for k in 0..16u8 {
        set(&mut chip, k, 0x10 + k);
    }
    assert_eq!(chip.execute_with(Opcode::LDI { addr: 0x600 }, 0), Ok(()));
    assert_eq!(chip.execute_with(Opcode::LDIStore { x: nib(3) }, 0), Ok(()));
    assert_eq!(chip.memory.slice(0x600, 0x605), &[0x10, 0x11, 0x12, 0x13, 0]);
    assert_eq!(reg(&chip, 0), 0x10);
    assert_eq!(chip.registers.get_i(), 0x600);
    for k in 0..16u8 {
        set(&mut chip, k, 0);
    }
    assert_eq!(chip.execute_with(Opcode::LDIRead { x: nib(2) }, 0), Ok(()));
    assert_eq!(reg(&chip, 0), 0x10);
    assert_eq!(reg(&chip, 1), 0x11);
    assert_eq!(reg(&chip, 2), 0x12);
    assert_eq!(reg(&chip, 3), 0);
    assert_eq!(chip.execute_with(Opcode::LDIStore { x: nib(0) }, 0), Ok(()));
    assert_eq!(chip.execute_with(Opcode::LDI { addr: 0x700 }, 0), Ok(()));
    assert_eq!(chip.execute_with(Opcode::LDIStore { x: nib(15) }, 0), Ok(()));
    assert_eq!(chip.memory.read(0x700), 0x10);
    assert_eq!(chip.memory.read(0x70F), 0);
}

#[test]
fn test_font_address_uses_the_low_nibble() {
    let mut chip = machine();
    set(&mut chip, 2, 0x0A);
    assert_eq!(chip.execute_with(Opcode::LDF { x: nib(2) }, 0), Ok(()));
    assert_eq!(chip.registers.get_i(), 0x50 + 10 * 5);
    set(&mut chip, 2, 0x3A);
    assert_eq!(chip.execute_with(Opcode::LDF { x: nib(2) }, 0), Ok(()));
    assert_eq!(chip.registers.get_i(), 0x82);
    set(&mut chip, 2, 0);
    assert_eq!(chip.execute_with(Opcode::LDF { x: nib(2) }, 0), Ok(()));
    assert_eq!(chip.registers.get_i(), 0x50);
}

#[test]
fn test_add_to_index_saturates() {
    let mut chip = machine();
    assert_eq!(chip.execute_with(Opcode::LDI { addr: 0xFFF }, 0), Ok(()));
    set(&mut chip, 1, 255);
    assert_eq!(chip.execute_with(Opcode::ADDI { x: nib(1) }, 0), Ok(()));
    assert_eq!(chip.registers.get_i(), 0xFFF + 255);
    for _ in 0..300 {
        assert_eq!(chip.execute_with(Opcode::ADDI { x: nib(1) }, 0), Ok(()));
    }
    assert_eq!(chip.registers.get_i(), 0xFFFF);
}

#[test]
fn test_skips_add_exactly_two() {
    let mut chip = machine();
    set(&mut chip, 1, 7);
    set(&mut chip, 2, 7);
    set(&mut chip, 3, 8);
    assert_eq!(chip.program_counter, 512);
    assert_eq!(chip.execute_with(Opcode::SEByte { x: nib(1), byte: 7 }, 0), Ok(()));
    assert_eq!(chip.program_counter, 514);
    assert_eq!(chip.execute_with(Opcode::SEByte { x: nib(1), byte: 8 }, 0), Ok(()));
    assert_eq!(chip.program_counter, 514);
    assert_eq!(chip.execute_with(Opcode::SNEByte { x: nib(1), byte: 8 }, 0), Ok(()));
    assert_eq!(chip.program_counter, 516);
    assert_eq!(chip.execute_with(Opcode::SNEByte { x: nib(1), byte: 7 }, 0), Ok(()));
    assert_eq!(chip.program_counter, 516);
    assert_eq!(chip.execute_with(Opcode::SEReg { x: nib(1), y: nib(2) }, 0), Ok(()));
    assert_eq!(chip.program_counter, 518);
    assert_eq!(chip.execute_with(Opcode::SEReg { x: nib(1), y: nib(3) }, 0), Ok(()));
    assert_eq!(chip.program_counter, 518);
    assert_eq!(chip.execute_with(Opcode::SNEReg { x: nib(1), y: nib(3) }, 0), Ok(()));
    assert_eq!(chip.program_counter, 520);
    assert_eq!(chip.execute_with(Opcode::SNEReg { x: nib(1), y: nib(2) }, 0), Ok(()));
    assert_eq!(chip.program_counter, 520);
}

#[test]
fn test_key_skips() {
    let mut chip = machine();
    chip.key_event('q');
    set(&mut chip, 1, 4);
    set(&mut chip, 2, 5);
    set(&mut chip, 3, 16);
    set(&mut chip, 4, 200);
    assert_eq!(chip.execute_with(Opcode::SKP { x: nib(1) }, 0), Ok(()));
    assert_eq!(chip.program_counter, 514);
    assert_eq!(chip.execute_with(Opcode::SKP { x: nib(2) }, 0), Ok(()));
    assert_eq!(chip.program_counter, 514);
    assert_eq!(chip.execute_with(Opcode::SKNP { x: nib(1) }, 0), Ok(()));
    assert_eq!(chip.program_counter, 514);
    assert_eq!(chip.execute_with(Opcode::SKNP { x: nib(2) }, 0), Ok(()));
    assert_eq!(chip.program_counter, 516);
    // A value that is no key code counts as a key that is not down.
    assert_eq!(chip.execute_with(Opcode::SKP { x: nib(3) }, 0), Ok(()));
    assert_eq!(chip.program_counter, 516);
    assert_eq!(chip.execute_with(Opcode::SKNP { x: nib(3) }, 0), Ok(()));
    assert_eq!(chip.program_counter, 518);
    assert_eq!(chip.execute_with(Opcode::SKNP { x: nib(4) }, 0), Ok(()));
    assert_eq!(chip.program_counter, 520);
}

#[test]
fn test_call_pushes_the_following_address_and_return_pops_it() {
    let mut chip = machine();
    chip.load_rom(&vec![0x23, 0x00]);
    assert_eq!(chip.step(), Ok(()));
    assert_eq!(chip.program_counter, 0x300);
    assert_eq!(chip.stack.peek(), 514);
    assert_eq!(chip.execute_with(Opcode::RET, 0), Ok(()));
    assert_eq!(chip.program_counter, 514);
    assert!(chip.stack.is_empty());
}

#[test]
fn test_jumps() {
    let mut chip = machine();
    assert_eq!(chip.execute_with(Opcode::JP { addr: 0x321 }, 0), Ok(()));
    assert_eq!(chip.program_counter, 0x321);
    set(&mut chip, 0, 0x10);
    assert_eq!(chip.execute_with(Opcode::JPPlusV0 { addr: 0x400 }, 0), Ok(()));
    assert_eq!(chip.program_counter, 0x410);
}

#[test]
fn test_stack_errors() {
    let mut chip = machine();
    assert_eq!(chip.execute_with(Opcode::RET, 0), Err(ChipError::StackUnderflow));
    assert_eq!(chip.program_counter, 512);
    for _ in 0..16 {
        assert_eq!(chip.execute_with(Opcode::CALL { addr: 0x300 }, 0), Ok(()));
    }
    assert_eq!(chip.execute_with(Opcode::CALL { addr: 0x400 }, 0), Err(ChipError::StackOverflow));
    assert_eq!(chip.program_counter, 0x300);
    assert!(chip.stack.is_full());
}

#[test]
fn test_memory_bounds_errors() {
    let mut chip = machine();
    assert_eq!(chip.execute_with(Opcode::LDI { addr: 0xFFE }, 0), Ok(()));
    set(&mut chip, 0, 199);
    assert_eq!(
        chip.execute_with(Opcode::LDB { x: nib(0) }, 0),
        Err(ChipError::MemoryBoundsError { addr: 4096 })
    );
    assert_eq!(chip.memory.read(0xFFE), 0);
    assert_eq!(
        chip.execute_with(Opcode::LDIStore { x: nib(2) }, 0),
        Err(ChipError::MemoryBoundsError { addr: 4096 })
    );
    assert_eq!(chip.memory.read(0xFFE), 0);
    assert_eq!(chip.execute_with(Opcode::LDIStore { x: nib(1) }, 0), Ok(()));
    assert_eq!(chip.memory.read(0xFFE), 199);
    assert_eq!(
        chip.execute_with(Opcode::LDIRead { x: nib(15) }, 0),
        Err(ChipError::MemoryBoundsError { addr: 4096 })
    );
    assert_eq!(
        chip.execute_with(Opcode::DRW { x: nib(0), y: nib(0), n: nib(3) }, 0),
        Err(ChipError::MemoryBoundsError { addr: 4096 })
    );
    assert_eq!(chip.execute_with(Opcode::DRW { x: nib(0), y: nib(0), n: nib(2) }, 0), Ok(()));
    set(&mut chip, 1, 255);
    assert_eq!(chip.execute_with(Opcode::ADDI { x: nib(1) }, 0), Ok(()));
    assert_eq!(
        chip.execute_with(Opcode::LDB { x: nib(0) }, 0),
        Err(ChipError::MemoryBoundsError { addr: 0xFFE + 255 })
    );
}

#[test]
fn test_timers_through_instructions() {
    let mut chip = machine();
    set(&mut chip, 1, 42);
    assert_eq!(chip.execute_with(Opcode::LDdtX { x: nib(1) }, 0), Ok(()));
    assert_eq!(chip.execute_with(Opcode::LDstX { x: nib(1) }, 0), Ok(()));
    assert_eq!(chip.timers.get_delay(), 42);
    assert_eq!(chip.timers.get_sound(), 42);
    chip.tick();
    assert_eq!(chip.execute_with(Opcode::LDxDT { x: nib(2) }, 0), Ok(()));
    assert_eq!(reg(&chip, 2), 41);
}

#[test]
fn test_random_is_masked() {
    let mut chip = machine();
    assert_eq!(chip.execute_with(Opcode::RND { x: nib(1), byte: 0x0F }, 0xAB), Ok(()));
    assert_eq!(reg(&chip, 1), 0x0B);
    assert_eq!(chip.execute_with(Opcode::RND { x: nib(1), byte: 0xFF }, 0xAB), Ok(()));
    assert_eq!(reg(&chip, 1), 0xAB);
    set(&mut chip, 1, 0x77);
    assert_eq!(chip.execute(Opcode::RND { x: nib(1), byte: 0x00 }), Ok(()));
    assert_eq!(reg(&chip, 1), 0);
    for _ in 0..64 {
        assert_eq!(chip.execute(Opcode::RND { x: nib(2), byte: 0x3C }), Ok(()));
        assert_eq!(reg(&chip, 2) & !0x3C, 0);
    }
}

#[test]
fn test_draw_sets_the_flag_to_the_collision() {
    let mut chip = machine();
    set(&mut chip, 0xF, 9);
    set(&mut chip, 1, 0);
    assert_eq!(chip.execute_with(Opcode::LDF { x: nib(1) }, 0), Ok(()));
    set(&mut chip, 2, 10);
    set(&mut chip, 3, 20);
    assert_eq!(chip.execute_with(Opcode::DRW { x: nib(2), y: nib(3), n: nib(5) }, 0), Ok(()));
    assert_eq!(reg(&chip, 0xF), 0);
    assert!(chip.display.buffer()[20][10]);
    assert!(chip.display.buffer()[20][13]);
    assert!(!chip.display.buffer()[21][11]);
    assert!(chip.display.buffer()[24][12]);
    assert_eq!(chip.execute_with(Opcode::DRW { x: nib(2), y: nib(3), n: nib(5) }, 0), Ok(()));
    assert_eq!(reg(&chip, 0xF), 1);
    assert!(!chip.display.buffer()[20][10]);
    assert_eq!(chip.execute_with(Opcode::DRW { x: nib(2), y: nib(3), n: nib(0) }, 0), Ok(()));
    assert_eq!(reg(&chip, 0xF), 0);
}

#[test]
fn test_clear_screen() {
    let mut chip = machine();
    chip.display.buffer()[3][4] = true;
    assert_eq!(chip.execute_with(Opcode::CLS, 0), Ok(()));
    assert!(!chip.display.buffer()[3][4]);
}

#[test]
fn test_wait_for_key_records_the_register() {
    let mut chip = machine();
    assert_eq!(chip.wait_for_input, None);
    assert_eq!(chip.execute_with(Opcode::LDxK { x: nib(6) }, 0), Ok(()));
    assert_eq!(chip.wait_for_input, Some(nib(6)));
    assert_eq!(chip.program_counter, 512);
}

#[test]
fn test_default_quirks() {
    assert_eq!(Quirks::default(), Quirks { shift_reads_vy: false, store_clears_registers: false });
    assert_eq!(machine().quirks, Quirks::default());
}

#[test]
fn test_shift_quirk_reads_register_y() {
    let quirks = Quirks { shift_reads_vy: true, store_clears_registers: false };
    let mut chip = Chip::with_quirks(TerminalDisplay::new(), quirks);
    set(&mut chip, 4, 0x00);
    set(&mut chip, 5, 0x81);
    assert_eq!(chip.execute_with(Opcode::SHR { x: nib(4), y: nib(5) }, 0), Ok(()));
    assert_eq!(reg(&chip, 4), 0x40);
    assert_eq!(reg(&chip, 5), 0x81);
    assert_eq!(reg(&chip, 0xF), 1);
    assert_eq!(chip.execute_with(Opcode::SHL { x: nib(4), y: nib(5) }, 0), Ok(()));
    assert_eq!(reg(&chip, 4), 0x02);
    assert_eq!(reg(&chip, 0xF), 1);
}

#[test]
fn test_store_quirk_clears_the_stored_registers() {
    let quirks = Quirks { shift_reads_vy: false, store_clears_registers: true };
    let mut chip = Chip::with_quirks(TerminalDisplay::new(), quirks);
    for k in 0..16u8 {
        set(&mut chip, k, 0x20 + k);
    }
    assert_eq!(chip.execute_with(Opcode::LDI { addr: 0x800 }, 0), Ok(()));
    assert_eq!(chip.execute_with(Opcode::LDIStore { x: nib(2) }, 0), Ok(()));
    assert_eq!(chip.memory.slice(0x800, 0x804), &[0x20, 0x21, 0x22, 0]);
    assert_eq!(reg(&chip, 0), 0);
    assert_eq!(reg(&chip, 2), 0);
    assert_eq!(reg(&chip, 3), 0x23);
    assert_eq!(chip.execute_with(Opcode::LDIRead { x: nib(1) }, 0), Ok(()));
    assert_eq!(reg(&chip, 0), 0x20);
    assert_eq!(reg(&chip, 1), 0x21);
    assert_eq!(chip.memory.slice(0x800, 0x802), &[0x20, 0x21]);
    assert_eq!(chip.execute_with(Opcode::LDI { addr: 0xFFF }, 0), Ok(()));
    assert_eq!(
        chip.execute_with(Opcode::LDIStore { x: nib(1) }, 0),
        Err(ChipError::MemoryBoundsError { addr: 4096 })
    );
    assert_eq!(reg(&chip, 0), 0x20);
}
