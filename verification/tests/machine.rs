use chip_8::{decode, Chip8, Chip8Error, Instruction};

const START: usize = 0x200;

fn machine_with(program: &[u8]) -> Chip8 {
    let mut chip8 = Chip8::new();
    chip8.init();
    chip8.load_rom(program).unwrap();
    chip8
}

fn pixel(chip8: &Chip8, x: usize, y: usize) -> bool {
    chip8.get_display()[y * 64 + x]
}

#[test]
fn test_initialization() {
    let mut chip8 = Chip8::new();
    chip8.init();
    // Fontset should be loaded
    assert_eq!(chip8.memory()[0], 0xF0);
}

#[test]
fn test_load_rom() {
    let mut chip8 = Chip8::new();
    chip8.init();
    let rom = [0x00, 0xE0]; // CLS
    assert_eq!(chip8.load_rom(&rom), Ok(()));

    assert_eq!(chip8.memory()[START], 0x00);
    assert_eq!(chip8.memory()[START + 1], 0xE0);
}

#[test]
fn test_cycle() {
    let mut chip8 = Chip8::new();
    chip8.init();
    // 6xNN: Set Vx = NN
    let rom = [0x60, 0xAA];
    assert_eq!(chip8.load_rom(&rom), Ok(()));

    assert_eq!(chip8.cycle(), Ok(()));
    assert_eq!(chip8.registers()[0], 0xAA);
}

#[test]
fn new_machine_is_zeroed() {
    let chip8 = Chip8::new();
    assert!(chip8.memory().iter().all(|&b| b == 0));
    assert_eq!(chip8.memory().len(), 4096);
    assert!(chip8.registers().iter().all(|&v| v == 0));
    assert_eq!(chip8.registers().len(), 16);
    assert_eq!(chip8.index_register(), 0);
    assert_eq!(chip8.delay_timer(), 0);
    assert_eq!(chip8.sound_timer(), 0);
    assert_eq!(chip8.program_counter(), 0x200);
}

#[test]
fn init_writes_every_glyph_and_resets_the_counter() {
    let mut chip8 = Chip8::new();
    chip8.load_rom(&[0x12, 0x34]).unwrap();
    chip8.cycle().unwrap();
    assert_eq!(chip8.program_counter(), 0x234);
    chip8.init();
    assert_eq!(chip8.program_counter(), 0x200);
    assert_eq!(&chip8.memory()[0..5], &[0xF0, 0x90, 0x90, 0x90, 0xF0]);
    assert_eq!(&chip8.memory()[5..10], &[0x20, 0x60, 0x20, 0x20, 0x70]);
    assert_eq!(&chip8.memory()[75..80], &[0xF0, 0x80, 0xF0, 0x80, 0x80]);
    assert_eq!(chip8.memory()[80], 0);
    // the program is still there
    assert_eq!(&chip8.memory()[START..START + 2], &[0x12, 0x34]);
    // a second call changes nothing
    let before = chip8.memory().to_vec();
    chip8.init();
    assert_eq!(chip8.memory(), &before[..]);
    assert_eq!(chip8.program_counter(), 0x200);
}

#[test]
fn display_is_blank_after_init() {
    let mut chip8 = Chip8::new();
    chip8.init();
    assert_eq!(chip8.get_display().len(), 2048);
    assert!(chip8.get_display().iter().all(|&p| !p));
}

#[test]
fn load_rom_accepts_exactly_what_fits() {
    let mut chip8 = Chip8::new();
    chip8.init();
    let rom = vec![0xAB; 3584];
    assert_eq!(chip8.load_rom(&rom), Ok(()));
    assert_eq!(chip8.memory()[START], 0xAB);
    assert_eq!(chip8.memory()[4095], 0xAB);
    assert_eq!(chip8.memory()[START - 1], 0);
}

#[test]
fn load_rom_refuses_one_byte_too_many() {
    let mut chip8 = Chip8::new();
    chip8.init();
    let before = chip8.memory().to_vec();
    let rom = vec![0xAB; 3585];
    assert_eq!(chip8.load_rom(&rom), Err(Chip8Error::CapacityError));
    assert_eq!(chip8.memory(), &before[..]);
}

#[test]
fn load_rom_of_nothing_succeeds() {
    let mut chip8 = Chip8::new();
    chip8.init();
    let before = chip8.memory().to_vec();
    assert_eq!(chip8.load_rom(&[]), Ok(()));
    assert_eq!(chip8.memory(), &before[..]);
}

#[test]
fn add_program_leaves_five_and_no_carry() {
    let mut chip8 = machine_with(&[0x6A, 0x02, 0x6B, 0x03, 0x8A, 0xB4]);
    for _ in 0..3 {
        assert_eq!(chip8.cycle(), Ok(()));
    }
    assert_eq!(chip8.registers()[0xA], 5);
    assert_eq!(chip8.registers()[0xB], 3);
    assert_eq!(chip8.registers()[0xF], 0);
    assert_eq!(chip8.program_counter(), 0x206);
}

#[test]
fn add_wraps_and_sets_carry() {
    let mut chip8 = machine_with(&[0x60, 0xFF, 0x61, 0x02, 0x80, 0x14]);
    for _ in 0..3 {
        chip8.cycle().unwrap();
    }
    assert_eq!(chip8.registers()[0], 1);
    assert_eq!(chip8.registers()[0xF], 1);
}

#[test]
fn add_agrees_with_arithmetic_for_all_bytes() {
    let mut chip8 = Chip8::new();
    for a in 0..=255u8 {
        for b in 0..=255u8 {
            chip8.execute_instruction(Instruction::LoadByte { x: 1, byte: a }, 0).unwrap();
            chip8.execute_instruction(Instruction::LoadByte { x: 2, byte: b }, 0).unwrap();
            chip8.execute_instruction(Instruction::Add { x: 1, y: 2 }, 0).unwrap();
            let sum = a as u16 + b as u16;
            assert_eq!(chip8.registers()[1] as u16, sum % 256);
            assert_eq!(chip8.registers()[0xF], if sum > 255 { 1 } else { 0 });
        }
    }
}

#[test]
fn sub_agrees_with_arithmetic_for_all_bytes() {
    let mut chip8 = Chip8::new();
    for a in 0..=255u8 {
        for b in 0..=255u8 {
            chip8.execute_instruction(Instruction::LoadByte { x: 1, byte: a }, 0).unwrap();
            chip8.execute_instruction(Instruction::LoadByte { x: 2, byte: b }, 0).unwrap();
            chip8.execute_instruction(Instruction::Sub { x: 1, y: 2 }, 0).unwrap();
            assert_eq!(chip8.registers()[1] as i32, (a as i32 - b as i32).rem_euclid(256));
            assert_eq!(chip8.registers()[0xF], if a >= b { 1 } else { 0 });
        }
    }
}

#[test]
fn sub_from_subtracts_the_other_way() {
    let mut chip8 = machine_with(&[0x60, 0x05, 0x61, 0x03, 0x80, 0x17, 0x61, 0x09, 0x80, 0x17]);
    for _ in 0..3 {
        chip8.cycle().unwrap();
    }
    // V0 = V1 - V0 = 3 - 5
    assert_eq!(chip8.registers()[0], 254);
    assert_eq!(chip8.registers()[0xF], 0);
    chip8.cycle().unwrap();
    chip8.cycle().unwrap();
    // V0 = 9 - 254
    assert_eq!(chip8.registers()[0], 11);
    assert_eq!(chip8.registers()[0xF], 0);
    chip8.execute(0x6002).unwrap();
    chip8.execute(0x8017).unwrap();
    assert_eq!(chip8.registers()[0], 7);
    assert_eq!(chip8.registers()[0xF], 1);
}

#[test]
fn shift_right_agrees_for_all_bytes() {
    let mut chip8 = Chip8::new();
    for a in 0..=255u8 {
        chip8.execute_instruction(Instruction::LoadByte { x: 3, byte: a }, 0).unwrap();
        chip8.execute_instruction(Instruction::ShiftRight { x: 3 }, 0).unwrap();
        assert_eq!(chip8.registers()[3], a >> 1);
        assert_eq!(chip8.registers()[0xF], a & 1);
    }
}

#[test]
fn shift_left_agrees_for_all_bytes() {
    let mut chip8 = Chip8::new();
    for a in 0..=255u8 {
        chip8.execute_instruction(Instruction::LoadByte { x: 3, byte: a }, 0).unwrap();
        chip8.execute_instruction(Instruction::ShiftLeft { x: 3 }, 0).unwrap();
        assert_eq!(chip8.registers()[3], a << 1);
        assert_eq!(chip8.registers()[0xF], a >> 7);
    }
}

#[test]
fn shifting_the_flag_register_shifts_the_flag() {
    let mut chip8 = Chip8::new();
    chip8.execute(0x6F03).unwrap();
    chip8.execute(0x8F06).unwrap();
    // VF = 3 & 1 = 1, then VF >>= 1
    assert_eq!(chip8.registers()[0xF], 0);
    chip8.execute(0x6F81).unwrap();
    chip8.execute(0x8F0E).unwrap();
    // VF = 0x81 >> 7 = 1, then VF <<= 1
    assert_eq!(chip8.registers()[0xF], 2);
}

#[test]
fn adding_into_the_flag_register_leaves_the_carry() {
    let mut chip8 = Chip8::new();
    chip8.execute(0x6F01).unwrap();
    chip8.execute(0x6101).unwrap();
    chip8.execute(0x8F14).unwrap();
    assert_eq!(chip8.registers()[0xF], 0);
}

#[test]
fn logic_instructions() {
    let mut chip8 = Chip8::new();
    chip8.execute(0x60CC).unwrap();
    chip8.execute(0x61AA).unwrap();
    chip8.execute(0x8011).unwrap();
    assert_eq!(chip8.registers()[0], 0xEE);
    chip8.execute(0x60CC).unwrap();
    chip8.execute(0x8012).unwrap();
    assert_eq!(chip8.registers()[0], 0x88);
    chip8.execute(0x60CC).unwrap();
    chip8.execute(0x8013).unwrap();
    assert_eq!(chip8.registers()[0], 0x66);
    chip8.execute(0x8010).unwrap();
    assert_eq!(chip8.registers()[0], 0xAA);
    // none of them touches the flag register
    assert_eq!(chip8.registers()[0xF], 0);
}

#[test]
fn add_byte_wraps_without_touching_the_flag() {
    let mut chip8 = Chip8::new();
    chip8.execute(0x60F0).unwrap();
    chip8.execute(0x7020).unwrap();
    assert_eq!(chip8.registers()[0], 0x10);
    assert_eq!(chip8.registers()[0xF], 0);
}

#[test]
fn jump_sets_the_counter() {
    let mut chip8 = machine_with(&[0x1A, 0xBC]);
    chip8.cycle().unwrap();
    assert_eq!(chip8.program_counter(), 0xABC);
}

#[test]
fn jump_offset_adds_register_zero() {
    let mut chip8 = machine_with(&[0x60, 0xFF, 0xBF, 0xFF]);
    chip8.cycle().unwrap();
    chip8.cycle().unwrap();
    assert_eq!(chip8.program_counter(), 0xFFF + 0xFF);
    // nothing can be fetched from there
    assert_eq!(chip8.cycle(), Err(Chip8Error::AddressOutOfRange));
    assert_eq!(chip8.program_counter(), 0xFFF + 0xFF);
}

#[test]
fn call_then_return_comes_back_behind_the_call() {
    // 0x200: CALL 0x206; 0x206: RET
    let mut chip8 = machine_with(&[0x22, 0x06, 0x00, 0x00, 0x00, 0x00, 0x00, 0xEE]);
    assert_eq!(chip8.cycle(), Ok(()));
    assert_eq!(chip8.program_counter(), 0x206);
    assert_eq!(chip8.cycle(), Ok(()));
    assert_eq!(chip8.program_counter(), 0x202);
}

#[test]
fn seventeenth_call_overflows() {
    // 0x200: CALL 0x200, for ever
    let mut chip8 = machine_with(&[0x22, 0x00]);
    for _ in 0..16 {
        assert_eq!(chip8.cycle(), Ok(()));
        assert_eq!(chip8.program_counter(), 0x200);
    }
    assert_eq!(chip8.cycle(), Err(Chip8Error::StackOverflow));
    // the failed call has moved only the program counter, past itself
    assert_eq!(chip8.program_counter(), 0x202);
}

#[test]
fn return_without_call_underflows() {
    let mut chip8 = machine_with(&[0x00, 0xEE]);
    assert_eq!(chip8.cycle(), Err(Chip8Error::StackUnderflow));
    assert_eq!(chip8.program_counter(), 0x202);
}

#[test]
fn skips() {
    // 3xkk taken, 3xkk not taken
    let mut chip8 = machine_with(&[0x60, 0x11, 0x30, 0x11, 0x00, 0x00, 0x30, 0x12]);
    chip8.cycle().unwrap();
    chip8.cycle().unwrap();
    assert_eq!(chip8.program_counter(), 0x206);
    chip8.cycle().unwrap();
    assert_eq!(chip8.program_counter(), 0x208);

    let mut chip8 = Chip8::new();
    chip8.execute(0x6011).unwrap();
    chip8.execute(0x6111).unwrap();
    chip8.execute(0x6212).unwrap();
    let pc = chip8.program_counter();
    chip8.execute(0x4011).unwrap();
    assert_eq!(chip8.program_counter(), pc);
    chip8.execute(0x4012).unwrap();
    assert_eq!(chip8.program_counter(), pc + 2);
    chip8.execute(0x5010).unwrap();
    assert_eq!(chip8.program_counter(), pc + 4);
    chip8.execute(0x5020).unwrap();
    assert_eq!(chip8.program_counter(), pc + 4);
    chip8.execute(0x9010).unwrap();
    assert_eq!(chip8.program_counter(), pc + 4);
    chip8.execute(0x9020).unwrap();
    assert_eq!(chip8.program_counter(), pc + 6);
}

#[test]
fn key_skips() {
    let mut chip8 = Chip8::new();
    let mut keys = [false; 16];
    keys[7] = true;
    chip8.set_pressed_keys(keys);
    chip8.execute(0x6007).unwrap();
    chip8.execute(0x6108).unwrap();
    let pc = chip8.program_counter();
    chip8.execute(0xE09E).unwrap();
    assert_eq!(chip8.program_counter(), pc + 2);
    chip8.execute(0xE19E).unwrap();
    assert_eq!(chip8.program_counter(), pc + 2);
    chip8.execute(0xE0A1).unwrap();
    assert_eq!(chip8.program_counter(), pc + 2);
    chip8.execute(0xE1A1).unwrap();
    assert_eq!(chip8.program_counter(), pc + 4);
}

#[test]
fn a_key_number_above_fifteen_names_a_key_that_is_up() {
    let mut chip8 = Chip8::new();
    chip8.set_pressed_keys([true; 16]);
    chip8.execute(0x6010).unwrap();
    let pc = chip8.program_counter();
    chip8.execute(0xE09E).unwrap();
    assert_eq!(chip8.program_counter(), pc);
    chip8.execute(0xE0A1).unwrap();
    assert_eq!(chip8.program_counter(), pc + 2);
}

#[test]
fn set_pressed_keys_replaces_the_whole_snapshot() {
    let mut chip8 = Chip8::new();
    let mut keys = [false; 16];
    keys[3] = true;
    chip8.set_pressed_keys(keys);
    let mut keys = [false; 16];
    keys[9] = true;
    chip8.set_pressed_keys(keys);
    // key 3 is up again: the wait takes key 9
    chip8.execute(0xF00A).unwrap();
    assert_eq!(chip8.registers()[0], 9);
}

#[test]
fn wait_key_without_key_repeats_the_instruction() {
    let mut chip8 = machine_with(&[0xF5, 0x0A]);
    for _ in 0..5 {
        assert_eq!(chip8.cycle(), Ok(()));
        assert_eq!(chip8.program_counter(), 0x200);
        assert_eq!(chip8.registers()[5], 0);
    }
}

#[test]
fn wait_key_takes_the_lowest_key() {
    let mut chip8 = machine_with(&[0xF5, 0x0A]);
    chip8.cycle().unwrap();
    let mut keys = [false; 16];
    keys[0xC] = true;
    keys[0x4] = true;
    chip8.set_pressed_keys(keys);
    assert_eq!(chip8.cycle(), Ok(()));
    assert_eq!(chip8.registers()[5], 4);
    assert_eq!(chip8.program_counter(), 0x202);
}

#[test]
fn timers_count_down_and_stop_at_zero() {
    let mut chip8 = Chip8::new();
    chip8.execute(0x6003).unwrap();
    chip8.execute(0x6102).unwrap();
    chip8.execute(0xF015).unwrap();
    chip8.execute(0xF118).unwrap();
    assert_eq!((chip8.delay_timer(), chip8.sound_timer()), (3, 2));
    assert!(!chip8.tick_timers());
    assert_eq!((chip8.delay_timer(), chip8.sound_timer()), (2, 1));
    // the tone ends when the sound timer goes from one to zero
    assert!(chip8.tick_timers());
    assert_eq!((chip8.delay_timer(), chip8.sound_timer()), (1, 0));
    assert!(!chip8.tick_timers());
    assert_eq!((chip8.delay_timer(), chip8.sound_timer()), (0, 0));
    assert!(!chip8.tick_timers());
    assert_eq!((chip8.delay_timer(), chip8.sound_timer()), (0, 0));
    chip8.execute(0xF207).unwrap();
    assert_eq!(chip8.registers()[2], 0);
}

#[test]
fn read_delay_reads_the_delay_timer() {
    let mut chip8 = Chip8::new();
    chip8.execute(0x6042).unwrap();
    chip8.execute(0xF015).unwrap();
    chip8.tick_timers();
    chip8.execute(0xF307).unwrap();
    assert_eq!(chip8.registers()[3], 0x41);
}

#[test]
fn index_register_instructions() {
    let mut chip8 = Chip8::new();
    chip8.execute(0xA123).unwrap();
    assert_eq!(chip8.index_register(), 0x123);
    chip8.execute(0x60FF).unwrap();
    chip8.execute(0xF01E).unwrap();
    assert_eq!(chip8.index_register(), 0x222);
    chip8.execute(0x600A).unwrap();
    chip8.execute(0xF029).unwrap();
    assert_eq!(chip8.index_register(), 50);
    chip8.execute(0x60FF).unwrap();
    chip8.execute(0xF029).unwrap();
    assert_eq!(chip8.index_register(), 1275);
}

#[test]
fn index_register_wraps_at_sixteen_bits() {
    let mut chip8 = Chip8::new();
    chip8.execute(0xAFFF).unwrap();
    chip8.execute(0x60FF).unwrap();
    // 0x0FFF + 240 * 0xFF = 0xFF0F
    for _ in 0..240 {
        chip8.execute(0xF01E).unwrap();
    }
    assert_eq!(chip8.index_register(), 0xFF0F);
    // 0xFF0F + 0xFF = 0x1000E
    chip8.execute(0xF01E).unwrap();
    assert_eq!(chip8.index_register(), 0x000E);
}

#[test]
fn store_digits_writes_hundreds_tens_ones() {
    let mut chip8 = Chip8::new();
    chip8.execute(0x60FE).unwrap();
    chip8.execute(0xA300).unwrap();
    chip8.execute(0xF033).unwrap();
    assert_eq!(&chip8.memory()[0x300..0x303], &[2, 5, 4]);
    chip8.execute(0x6007).unwrap();
    chip8.execute(0xF033).unwrap();
    assert_eq!(&chip8.memory()[0x300..0x303], &[0, 0, 7]);
}

#[test]
fn store_digits_past_the_end_fails_and_writes_nothing() {
    let mut chip8 = Chip8::new();
    chip8.execute(0x60FE).unwrap();
    chip8.execute(0xAFFE).unwrap();
    assert_eq!(chip8.execute(0xF033), Err(Chip8Error::AddressOutOfRange));
    assert_eq!(&chip8.memory()[0xFFE..], &[0, 0]);
    chip8.execute(0xAFFD).unwrap();
    assert_eq!(chip8.execute(0xF033), Ok(()));
    assert_eq!(&chip8.memory()[0xFFD..], &[2, 5, 4]);
}

#[test]
fn store_and_load_registers() {
    let mut chip8 = Chip8::new();
    chip8.execute(0x6011).unwrap();
    chip8.execute(0x6122).unwrap();
    chip8.execute(0x6233).unwrap();
    chip8.execute(0x6344).unwrap();
    chip8.execute(0xA400).unwrap();
    chip8.execute(0xF255).unwrap();
    assert_eq!(&chip8.memory()[0x400..0x404], &[0x11, 0x22, 0x33, 0]);
    assert_eq!(chip8.index_register(), 0x400);
    chip8.execute(0x6000).unwrap();
    chip8.execute(0x6100).unwrap();
    chip8.execute(0x6200).unwrap();
    chip8.execute(0xF165).unwrap();
    assert_eq!(&chip8.registers()[0..4], &[0x11, 0x22, 0, 0x44]);
    assert_eq!(chip8.index_register(), 0x400);
}

#[test]
fn store_registers_past_the_end_fails_and_writes_nothing() {
    let mut chip8 = Chip8::new();
    chip8.execute(0x6011).unwrap();
    chip8.execute(0x6122).unwrap();
    chip8.execute(0xAFFF).unwrap();
    assert_eq!(chip8.execute(0xF155), Err(Chip8Error::AddressOutOfRange));
    assert_eq!(chip8.memory()[0xFFF], 0);
    assert_eq!(chip8.execute(0xF055), Ok(()));
    assert_eq!(chip8.memory()[0xFFF], 0x11);
}

#[test]
fn load_registers_past_the_end_fails_and_loads_nothing() {
    let mut chip8 = Chip8::new();
    chip8.execute(0x6011).unwrap();
    chip8.execute(0x6122).unwrap();
    chip8.execute(0xAFFF).unwrap();
    assert_eq!(chip8.execute(0xF165), Err(Chip8Error::AddressOutOfRange));
    assert_eq!(&chip8.registers()[0..2], &[0x11, 0x22]);
}

#[test]
fn random_is_masked() {
    let mut chip8 = Chip8::new();
    for _ in 0..200 {
        chip8.execute(0xC00F).unwrap();
        assert_eq!(chip8.registers()[0] & 0xF0, 0);
    }
    chip8.execute(0x60FF).unwrap();
    chip8.execute(0xC000).unwrap();
    assert_eq!(chip8.registers()[0], 0);
}

#[test]
fn random_byte_can_be_handed_in() {
    let mut chip8 = machine_with(&[0xC1, 0x3C]);
    assert_eq!(chip8.cycle_with_random(0xA5), Ok(()));
    assert_eq!(chip8.registers()[1], 0xA5 & 0x3C);
    chip8.execute_instruction(Instruction::Random { x: 2, byte: 0xF0 }, 0xFF).unwrap();
    assert_eq!(chip8.registers()[2], 0xF0);
}

#[test]
fn random_draws_different_bytes() {
    let mut chip8 = Chip8::new();
    let mut seen = [false; 256];
    for _ in 0..4000 {
        chip8.execute(0xC0FF).unwrap();
        seen[chip8.registers()[0] as usize] = true;
    }
    assert!(seen.iter().filter(|&&s| s).count() > 100);
}

#[test]
fn unknown_opcode_is_reported_and_changes_nothing() {
    let mut chip8 = machine_with(&[0x00, 0x00, 0x60, 0x07]);
    let memory = chip8.memory().to_vec();
    assert_eq!(chip8.cycle(), Err(Chip8Error::UnknownOpcode));
    assert!(!Chip8Error::UnknownOpcode.is_fatal());
    // only the fetch has moved the program counter
    assert_eq!(chip8.program_counter(), 0x202);
    assert_eq!(chip8.memory(), &memory[..]);
    assert!(chip8.registers().iter().all(|&v| v == 0));
    // the run goes on
    assert_eq!(chip8.cycle(), Ok(()));
    assert_eq!(chip8.registers()[0], 7);
    for opcode in [0x5001u16, 0x8008, 0x9001, 0xE000, 0xF000, 0xF0FF, 0x00E1, 0x0123] {
        let pc = chip8.program_counter();
        assert_eq!(chip8.execute(opcode), Err(Chip8Error::UnknownOpcode));
        assert_eq!(chip8.program_counter(), pc);
    }
}

#[test]
fn every_other_error_is_fatal() {
    assert!(Chip8Error::CapacityError.is_fatal());
    assert!(Chip8Error::StackOverflow.is_fatal());
    assert!(Chip8Error::StackUnderflow.is_fatal());
    assert!(Chip8Error::AddressOutOfRange.is_fatal());
}

#[test]
fn fetch_at_the_last_byte_fails() {
    let mut chip8 = machine_with(&[0x1F, 0xFF]);
    chip8.cycle().unwrap();
    assert_eq!(chip8.program_counter(), 0xFFF);
    assert_eq!(chip8.cycle(), Err(Chip8Error::AddressOutOfRange));
    assert_eq!(chip8.program_counter(), 0xFFF);
}

#[test]
fn fetch_of_the_last_word_succeeds() {
    let mut rom = vec![0u8; 3584];
    rom[0] = 0x1F;
    rom[1] = 0xFE;
    rom[3582] = 0x6C;
    rom[3583] = 0x99;
    let mut chip8 = machine_with(&rom);
    chip8.cycle().unwrap();
    assert_eq!(chip8.cycle(), Ok(()));
    assert_eq!(chip8.registers()[0xC], 0x99);
    assert_eq!(chip8.program_counter(), 0x1000);
}

#[test]
fn draw_glyph_zero_end_to_end() {
    // I = glyph 0, V0 = V1 = 0, draw 5 rows at (V0, V1)
    let mut chip8 = machine_with(&[0xA0, 0x00, 0x60, 0x00, 0x61, 0x00, 0xD0, 0x15]);
    for _ in 0..4 {
        assert_eq!(chip8.cycle(), Ok(()));
    }
    for x in 0..8 {
        assert_eq!(pixel(&chip8, x, 0), x < 4);
    }
    assert_eq!(chip8.registers()[0xF], 0);
    let glyph = [0xF0u8, 0x90, 0x90, 0x90, 0xF0];
    for y in 0..32 {
        for x in 0..64 {
            let expected = y < 5 && x < 8 && (glyph[y] >> (7 - x)) & 1 == 1;
            assert_eq!(pixel(&chip8, x, y), expected);
        }
    }
}

#[test]
fn draw_twice_clears_and_reports_the_collision() {
    let mut chip8 = machine_with(&[0xA0, 0x00, 0xD0, 0x15, 0xD0, 0x15]);
    chip8.cycle().unwrap();
    chip8.cycle().unwrap();
    assert_eq!(chip8.registers()[0xF], 0);
    chip8.cycle().unwrap();
    assert_eq!(chip8.registers()[0xF], 1);
    assert!(chip8.get_display().iter().all(|&p| !p));
}

#[test]
fn draw_wraps_the_corner() {
    // V0 = 64 + 3, V1 = 32 + 2, glyph 1
    let mut chip8 = Chip8::new();
    chip8.init();
    chip8.execute(0x6043).unwrap();
    chip8.execute(0x6122).unwrap();
    chip8.execute(0xA005).unwrap();
    chip8.execute(0xD015).unwrap();
    let glyph = [0x20u8, 0x60, 0x20, 0x20, 0x70];
    for y in 0..32usize {
        for x in 0..64usize {
            let expected = (2..7).contains(&y)
                && (3..11).contains(&x)
                && (glyph[y - 2] >> (7 - (x - 3))) & 1 == 1;
            assert_eq!(pixel(&chip8, x, y), expected);
        }
    }
}

#[test]
fn draw_of_no_rows_draws_nothing() {
    let mut chip8 = Chip8::new();
    chip8.init();
    chip8.execute(0x6F01).unwrap();
    chip8.execute(0xD010).unwrap();
    assert!(chip8.get_display().iter().all(|&p| !p));
    assert_eq!(chip8.registers()[0xF], 0);
}

#[test]
fn draw_from_past_the_end_of_memory_fails() {
    let mut chip8 = Chip8::new();
    chip8.init();
    chip8.execute(0xAFFE).unwrap();
    chip8.execute(0x6F07).unwrap();
    assert_eq!(chip8.execute(0xD003), Err(Chip8Error::AddressOutOfRange));
    assert!(chip8.get_display().iter().all(|&p| !p));
    assert_eq!(chip8.registers()[0xF], 7);
    assert_eq!(chip8.execute(0xD002), Ok(()));
}

#[test]
fn clear_screen_turns_everything_off() {
    let mut chip8 = Chip8::new();
    chip8.init();
    chip8.execute(0xD005).unwrap();
    assert!(chip8.get_display().iter().any(|&p| p));
    chip8.execute(0x00E0).unwrap();
    assert!(chip8.get_display().iter().all(|&p| !p));
}

#[test]
fn decode_reads_the_table() {
    assert_eq!(decode(0x00E0), Instruction::ClearScreen);
    assert_eq!(decode(0x00EE), Instruction::Return);
    assert_eq!(decode(0x1234), Instruction::Jump { address: 0x234 });
    assert_eq!(decode(0x2FFF), Instruction::Call { address: 0xFFF });
    assert_eq!(decode(0x3A12), Instruction::SkipIfByte { x: 0xA, byte: 0x12 });
    assert_eq!(decode(0x4B34), Instruction::SkipUnlessByte { x: 0xB, byte: 0x34 });
    assert_eq!(decode(0x5CD0), Instruction::SkipIfEqual { x: 0xC, y: 0xD });
    assert_eq!(decode(0x6E56), Instruction::LoadByte { x: 0xE, byte: 0x56 });
    assert_eq!(decode(0x7F78), Instruction::AddByte { x: 0xF, byte: 0x78 });
    assert_eq!(decode(0x8120), Instruction::Assign { x: 1, y: 2 });
    assert_eq!(decode(0x8121), Instruction::Or { x: 1, y: 2 });
    assert_eq!(decode(0x8122), Instruction::And { x: 1, y: 2 });
    assert_eq!(decode(0x8123), Instruction::Xor { x: 1, y: 2 });
    assert_eq!(decode(0x8124), Instruction::Add { x: 1, y: 2 });
    assert_eq!(decode(0x8125), Instruction::Sub { x: 1, y: 2 });
    assert_eq!(decode(0x8126), Instruction::ShiftRight { x: 1 });
    assert_eq!(decode(0x8127), Instruction::SubFrom { x: 1, y: 2 });
    assert_eq!(decode(0x812E), Instruction::ShiftLeft { x: 1 });
    assert_eq!(decode(0x9340), Instruction::SkipUnlessEqual { x: 3, y: 4 });
    assert_eq!(decode(0xA567), Instruction::LoadIndex { address: 0x567 });
    assert_eq!(decode(0xB89A), Instruction::JumpOffset { address: 0x89A });
    assert_eq!(decode(0xC5BC), Instruction::Random { x: 5, byte: 0xBC });
    assert_eq!(decode(0xD67F), Instruction::Draw { x: 6, y: 7, height: 0xF });
    assert_eq!(decode(0xE89E), Instruction::SkipIfKey { x: 8 });
    assert_eq!(decode(0xE9A1), Instruction::SkipUnlessKey { x: 9 });
    assert_eq!(decode(0xFA07), Instruction::ReadDelay { x: 0xA });
    assert_eq!(decode(0xFB0A), Instruction::WaitKey { x: 0xB });
    assert_eq!(decode(0xFC15), Instruction::SetDelay { x: 0xC });
    assert_eq!(decode(0xFD18), Instruction::SetSound { x: 0xD });
    assert_eq!(decode(0xFE1E), Instruction::AddIndex { x: 0xE });
    assert_eq!(decode(0xFF29), Instruction::LoadGlyph { x: 0xF });
    assert_eq!(decode(0xF033), Instruction::StoreDigits { x: 0 });
    assert_eq!(decode(0xF155), Instruction::StoreRegisters { x: 1 });
    assert_eq!(decode(0xF265), Instruction::LoadRegisters { x: 2 });
}

#[test]
fn decode_keeps_what_it_does_not_know() {
    for opcode in [0x0000u16, 0x00E1, 0x0FFF, 0x5121, 0x8128, 0x812F, 0x9121, 0xE09F, 0xF166] {
        assert_eq!(decode(opcode), Instruction::Unknown { opcode });
    }
}
