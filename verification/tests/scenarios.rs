use chip8::cartridge::Cartridge;
use chip8::cpu::Cpu;
use chip8::cpu::MAX_ROM_SIZE;
use chip8::input::Input;
use chip8::isa::Chip8Error;

const NO_KEYS: [bool; 16] = [false; 16];

fn fresh_cpu() -> Cpu {
    let mut cpu = Cpu::new();
    cpu.pc = 0xA00;
    cpu
}

#[test]
fn clear_screen_program() {
    // A loaded program whose first instruction is clear-screen zeroes every
    // framebuffer cell, marks the buffer changed, advances the program
    // counter by one instruction width, and mutates nothing else.
    let mut cpu = Cpu::new();
    cpu.load_rom(&vec![0x00, 0xE0]).unwrap();
    cpu.vram[5] = 1;
    cpu.vram[2047] = 1;
    cpu.tick(&NO_KEYS).unwrap();
    for p in 0..2048 {
        assert_eq!(cpu.vram[p], 0);
    }
    assert!(cpu.vram_changed);
    assert_eq!(cpu.pc, 0x202);
    assert_eq!(cpu.v, [0; 16]);
    assert_eq!(cpu.sp, 0);
    assert_eq!(cpu.i, 0);
    assert_eq!(cpu.delay_timer, 0);
    assert_eq!(cpu.sound_timer, 0);
    assert!(!cpu.awaiting_keypress);
}

#[test]
fn keywait_blocks_until_key() {
    // Block-for-keypress with no keys down leaves the program counter
    // unchanged across repeated steps; the first step in which key 2 is
    // down writes 2 into the destination register and execution of the
    // following instruction resumes.
    let mut cpu = Cpu::new();
    cpu.load_rom(&vec![0xF5, 0x0A]).unwrap();
    cpu.tick(&NO_KEYS).unwrap();
    assert_eq!(cpu.pc, 0x202);
    assert!(cpu.awaiting_keypress);
    for _ in 0..5 {
        cpu.tick(&NO_KEYS).unwrap();
        assert_eq!(cpu.pc, 0x202);
        assert!(cpu.awaiting_keypress);
    }
    let mut keys = NO_KEYS;
    keys[2] = true;
    // the word at 0x202 is zero: the ignored legacy machine-code jump
    cpu.tick(&keys).unwrap();
    assert_eq!(cpu.v[5], 2);
    assert!(!cpu.awaiting_keypress);
    assert_eq!(cpu.pc, 0x204);
}

#[test]
fn keywait_lowest_index_wins() {
    let mut cpu = Cpu::new();
    cpu.load_rom(&vec![0xF0, 0x0A]).unwrap();
    cpu.tick(&NO_KEYS).unwrap();
    let mut keys = NO_KEYS;
    keys[9] = true;
    keys[3] = true;
    keys[12] = true;
    cpu.tick(&keys).unwrap();
    assert_eq!(cpu.v[0], 3);
}

#[test]
fn draw_wraps_at_column_62() {
    // An 8-bit-wide single-row sprite drawn at origin column 62 lights the
    // pixels at columns 62, 63, 0, 1, 2, 3, 4 and 5 of its row.
    let mut cpu = fresh_cpu();
    cpu.i = 0x300;
    cpu.ram[0x300] = 0xFF;
    cpu.v[0] = 62;
    cpu.v[1] = 0;
    cpu.execute(0xD011).unwrap();
    assert_eq!(cpu.vram[62], 1);
    assert_eq!(cpu.vram[63], 1);
    assert_eq!(cpu.vram[0], 1);
    assert_eq!(cpu.vram[1], 1);
    assert_eq!(cpu.vram[2], 1);
    assert_eq!(cpu.vram[3], 1);
    assert_eq!(cpu.vram[4], 1);
    assert_eq!(cpu.vram[5], 1);
    assert_eq!(cpu.vram[6], 0);
    assert_eq!(cpu.vram[61], 0);
    assert_eq!(cpu.v[0xf], 0);
    assert!(cpu.vram_changed);
}

#[test]
fn draw_collision_on_both_axis_wrap() {
    // A two-row sprite at (63, 31) wraps on both axes; a lit pixel at the
    // wrapped destination (0, 0) collides.
    let mut cpu = fresh_cpu();
    cpu.i = 0x300;
    cpu.ram[0x300] = 0b10000000;
    cpu.ram[0x301] = 0b01000000;
    cpu.v[2] = 63;
    cpu.v[3] = 31;
    cpu.vram[0 * 64 + 0] = 1; // second sprite row, second bit lands here
    cpu.execute(0xD232).unwrap();
    assert_eq!(cpu.vram[31 * 64 + 63], 1);
    assert_eq!(cpu.vram[0 * 64 + 0], 0);
    assert_eq!(cpu.v[0xf], 1);
}

#[test]
fn draw_zero_rows_marks_changed() {
    let mut cpu = fresh_cpu();
    cpu.vram[7] = 1;
    cpu.v[0] = 0;
    cpu.execute(0xD000).unwrap();
    assert_eq!(cpu.vram[7], 1);
    assert_eq!(cpu.v[0xf], 0);
    assert!(cpu.vram_changed);
    assert_eq!(cpu.pc, 0xA02);
}

#[test]
fn add_carry_wraps_to_zero() {
    let mut cpu = fresh_cpu();
    cpu.v[1] = 0xFF;
    cpu.v[2] = 0x01;
    cpu.execute(0x8124).unwrap();
    assert_eq!(cpu.v[1], 0x00);
    assert_eq!(cpu.v[0xf], 1);
}

#[test]
fn sub_of_equal_values_sets_no_borrow() {
    let mut cpu = fresh_cpu();
    cpu.v[1] = 0x42;
    cpu.v[2] = 0x42;
    cpu.execute(0x8125).unwrap();
    assert_eq!(cpu.v[1], 0);
    assert_eq!(cpu.v[0xf], 1);
}

#[test]
fn bcd_of_boundary_values() {
    let mut cpu = fresh_cpu();
    cpu.i = 0x300;
    cpu.v[6] = 255;
    cpu.execute(0xF633).unwrap();
    assert_eq!(cpu.ram[0x300], 2);
    assert_eq!(cpu.ram[0x301], 5);
    assert_eq!(cpu.ram[0x302], 5);
    cpu.v[6] = 0;
    cpu.execute(0xF633).unwrap();
    assert_eq!(cpu.ram[0x300], 0);
    assert_eq!(cpu.ram[0x301], 0);
    assert_eq!(cpu.ram[0x302], 0);
}

#[test]
fn block_store_then_load_roundtrips() {
    // Store registers 0..=x, clobber them, load them back: restored.
    let mut cpu = fresh_cpu();
    cpu.v = [9, 8, 7, 6, 5, 4, 3, 2, 1, 0, 11, 22, 33, 44, 55, 66];
    let saved = cpu.v;
    cpu.i = 0x300;
    cpu.execute(0xFF55).unwrap();
    cpu.v = [0xAA; 16];
    cpu.execute(0xFF65).unwrap();
    assert_eq!(cpu.v, saved);
}

#[test]
fn call_then_return_restores_flow() {
    // A call followed immediately by a return lands just after the call,
    // with the stack pointer back at its pre-call value.
    let mut cpu = Cpu::new();
    // 0x200: call 0x208; 0x208: return
    cpu.load_rom(&vec![0x22, 0x08, 0, 0, 0, 0, 0, 0, 0x00, 0xEE]).unwrap();
    cpu.tick(&NO_KEYS).unwrap();
    assert_eq!(cpu.pc, 0x208);
    assert_eq!(cpu.sp, 1);
    cpu.tick(&NO_KEYS).unwrap();
    assert_eq!(cpu.pc, 0x202);
    assert_eq!(cpu.sp, 0);
}

#[test]
fn unrecognized_instruction_is_fatal() {
    let mut cpu = fresh_cpu();
    assert_eq!(
        cpu.execute(0x8478),
        Err(Chip8Error::UnrecognizedInstruction { opcode: 0x8478, address: 0xA00 })
    );
    assert_eq!(cpu.pc, 0xA00);
    assert_eq!(
        cpu.execute(0xE4FF),
        Err(Chip8Error::UnrecognizedInstruction { opcode: 0xE4FF, address: 0xA00 })
    );
    assert_eq!(
        cpu.execute(0xF4FF),
        Err(Chip8Error::UnrecognizedInstruction { opcode: 0xF4FF, address: 0xA00 })
    );
    assert_eq!(
        cpu.execute(0x9471),
        Err(Chip8Error::UnrecognizedInstruction { opcode: 0x9471, address: 0xA00 })
    );
}

#[test]
fn legacy_machine_code_jump_is_ignored() {
    let mut cpu = fresh_cpu();
    cpu.execute(0x0123).unwrap();
    assert_eq!(cpu.pc, 0xA02);
}

#[test]
fn stack_underflow_is_fatal() {
    let mut cpu = fresh_cpu();
    assert_eq!(cpu.execute(0x00EE), Err(Chip8Error::StackUnderflow));
    assert_eq!(cpu.pc, 0xA00);
    assert_eq!(cpu.sp, 0);
}

#[test]
fn stack_overflow_is_fatal() {
    let mut cpu = fresh_cpu();
    cpu.sp = 15;
    assert_eq!(cpu.execute(0x2ace), Err(Chip8Error::StackOverflow));
    assert_eq!(cpu.pc, 0xA00);
    assert_eq!(cpu.sp, 15);
}

#[test]
fn key_index_out_of_range_is_fatal() {
    let mut cpu = fresh_cpu();
    cpu.v[4] = 16;
    assert_eq!(cpu.execute(0xE49E), Err(Chip8Error::KeyOutOfRange { key: 16 }));
    cpu.v[4] = 0xFF;
    assert_eq!(cpu.execute(0xE4A1), Err(Chip8Error::KeyOutOfRange { key: 0xFF }));
    assert_eq!(cpu.pc, 0xA00);
}

#[test]
fn memory_out_of_range_is_fatal() {
    let mut cpu = fresh_cpu();
    cpu.i = 4094;
    assert_eq!(cpu.execute(0xF433), Err(Chip8Error::MemoryOutOfRange));
    cpu.i = 4093;
    cpu.execute(0xF433).unwrap();

    cpu.i = 4093;
    assert_eq!(cpu.execute(0xD004), Err(Chip8Error::MemoryOutOfRange));
    cpu.i = 4090;
    assert_eq!(cpu.execute(0xF655), Err(Chip8Error::MemoryOutOfRange));
    assert_eq!(cpu.execute(0xF665), Err(Chip8Error::MemoryOutOfRange));
}

#[test]
fn program_counter_out_of_range_is_fatal() {
    let mut cpu = fresh_cpu();
    cpu.pc = 4095;
    assert_eq!(
        cpu.tick(&NO_KEYS),
        Err(Chip8Error::ProgramCounterOutOfRange { address: 4095 })
    );
}

#[test]
fn oversized_program_is_rejected_whole() {
    let mut cpu = Cpu::new();
    let saved_ram: Vec<u8> = cpu.ram.to_vec();
    let rom = vec![0x55u8; MAX_ROM_SIZE + 1];
    assert_eq!(cpu.load_rom(&rom), Err(Chip8Error::ProgramTooLarge));
    assert_eq!(cpu.ram.to_vec(), saved_ram);
    let largest = vec![0x55u8; MAX_ROM_SIZE];
    cpu.load_rom(&largest).unwrap();
    assert_eq!(cpu.ram[0x200], 0x55);
    assert_eq!(cpu.ram[0xFFF], 0x55);
}

#[test]
fn load_rom_places_image_at_reset_vector() {
    let mut cpu = Cpu::new();
    cpu.load_rom(&vec![1, 2, 3]).unwrap();
    assert_eq!(cpu.ram[0x200], 1);
    assert_eq!(cpu.ram[0x201], 2);
    assert_eq!(cpu.ram[0x202], 3);
    assert_eq!(cpu.ram[0x203], 0);
    // the glyph table is untouched
    assert_eq!(cpu.ram[0], 0xF0);
    assert_eq!(cpu.ram[79], 0x80);
}

#[test]
fn timers_tick_down_and_saturate() {
    let mut cpu = fresh_cpu();
    cpu.v[4] = 2;
    cpu.execute(0xF415).unwrap();
    cpu.execute(0xF418).unwrap();
    assert_eq!(cpu.delay_timer, 2);
    assert_eq!(cpu.sound_timer, 2);
    assert!(cpu.sound_active());
    cpu.tick_timers();
    cpu.tick_timers();
    assert_eq!(cpu.delay_timer, 0);
    assert!(!cpu.sound_active());
    cpu.tick_timers();
    assert_eq!(cpu.delay_timer, 0);
    assert_eq!(cpu.sound_timer, 0);
}

#[test]
fn pixel_reads_row_major() {
    let mut cpu = fresh_cpu();
    cpu.vram[3 * 64 + 17] = 1;
    assert_eq!(cpu.pixel(3, 17), 1);
    assert_eq!(cpu.pixel(3, 18), 0);
    assert_eq!(cpu.pixel(4, 17), 0);
}

#[test]
fn presentation_clears_dirty_flag() {
    let mut cpu = fresh_cpu();
    cpu.execute(0x00E0).unwrap();
    assert!(cpu.vram_changed);
    cpu.clear_vram_changed();
    assert!(!cpu.vram_changed);
}

#[test]
fn font_lookup_reaches_each_glyph() {
    let mut cpu = fresh_cpu();
    cpu.v[0] = 0xF;
    cpu.execute(0xF029).unwrap();
    assert_eq!(cpu.i, 75);
    assert_eq!(cpu.ram[cpu.i as usize], 0xF0); // first byte of the F glyph
    assert_eq!(cpu.ram[cpu.i as usize + 4], 0x80); // last byte of the F glyph
}

#[test]
fn address_register_add_wraps() {
    let mut cpu = fresh_cpu();
    cpu.i = 0xFFFF;
    cpu.v[4] = 3;
    cpu.execute(0xF41E).unwrap();
    assert_eq!(cpu.i, 2);
}

#[test]
fn immediate_add_wraps_without_flag() {
    let mut cpu = fresh_cpu();
    cpu.v[8] = 0xFF;
    cpu.v[0xf] = 0x77;
    cpu.execute(0x7802).unwrap();
    assert_eq!(cpu.v[8], 1);
    assert_eq!(cpu.v[0xf], 0x77); // no flag side effect
}

#[test]
fn input_tracks_key_transitions() {
    let mut input = Input::new();
    assert_eq!(input.keys_pressed(), &NO_KEYS);
    input.set_key(7, true);
    assert!(input.keys_pressed()[7]);
    input.set_key(7, false);
    assert!(!input.keys_pressed()[7]);
}

#[test]
fn cartridge_wraps_image_and_checks_size() {
    let cart = Cartridge::new(vec![0x12, 0x34]);
    assert_eq!(cart.rom, vec![0x12, 0x34]);
    assert!(cart.fits());
    let big = Cartridge::new(vec![0u8; MAX_ROM_SIZE + 1]);
    assert!(!big.fits());
}
