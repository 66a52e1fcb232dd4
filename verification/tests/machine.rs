use chip8_core::{
    Chip8Error, Emu, Instruction, FONTSET, MAX_PROGRAM_SIZE, RAM_SIZE, SCREEN_HEIGHT, SCREEN_SIZE,
    SCREEN_WIDTH, START_ADDR,
};

fn machine_with(program: &[u8]) -> Emu {
    let mut emu = Emu::new();
    assert_eq!(emu.load(program), Ok(()));
    emu
}

fn run(emu: &mut Emu, steps: usize) {
    for _ in 0..steps {
        assert_eq!(emu.tick(), Ok(()));
    }
}

#[test]
fn it_works() {}

#[test]
fn new_machine_is_in_initial_state() {
    let emu = Emu::new();
    assert_eq!(emu.program_counter(), 0x200);
    assert_eq!(emu.program_counter(), START_ADDR);
    assert_eq!(emu.index_register(), 0);
    assert_eq!(emu.stack_depth(), 0);
    assert_eq!(emu.delay_timer(), 0);
    assert_eq!(emu.sound_timer(), 0);
    assert_eq!(emu.registers(), &[0u8; 16][..]);
    assert_eq!(emu.keys(), &[false; 16][..]);
    assert_eq!(emu.memory().len(), RAM_SIZE);
    assert_eq!(&emu.memory()[..80], &FONTSET[..]);
    assert!(emu.memory()[80..].iter().all(|b| *b == 0));
    assert_eq!(emu.get_display().len(), SCREEN_WIDTH * SCREEN_HEIGHT);
    assert_eq!(emu.get_display().len(), SCREEN_SIZE);
    assert!(emu.get_display().iter().all(|p| !*p));
}

#[test]
fn glyph_table_holds_the_hex_digits() {
    assert_eq!(FONTSET.len(), 80);
    assert_eq!(&FONTSET[0..5], &[0xF0, 0x90, 0x90, 0x90, 0xF0]);
    assert_eq!(&FONTSET[5..10], &[0x20, 0x60, 0x20, 0x20, 0x70]);
    assert_eq!(&FONTSET[50..55], &[0xF0, 0x90, 0xF0, 0x90, 0x90]);
    assert_eq!(&FONTSET[75..80], &[0xF0, 0x80, 0xF0, 0x80, 0x80]);
}

#[test]
fn reset_restores_the_initial_state() {
    let mut emu = machine_with(&[0x6A, 0x2A, 0xA0, 0x05, 0x22, 0x08, 0x00, 0x00, 0xD0, 0x05]);
    run(&mut emu, 3);
    assert_eq!(emu.keypress(5, true), Ok(()));
    assert_eq!(emu.execute(Instruction::SetDelay { x: 10 }, 0), Ok(()));
    assert_eq!(emu.execute(Instruction::SetSound { x: 10 }, 0), Ok(()));
    run(&mut emu, 1);
    assert_eq!(emu.stack_depth(), 1);
    assert!(emu.get_display().iter().any(|p| *p));
    emu.reset();
    let fresh = Emu::new();
    assert_eq!(emu.program_counter(), fresh.program_counter());
    assert_eq!(emu.index_register(), 0);
    assert_eq!(emu.stack_depth(), 0);
    assert_eq!(emu.delay_timer(), 0);
    assert_eq!(emu.sound_timer(), 0);
    assert_eq!(emu.registers(), fresh.registers());
    assert_eq!(emu.keys(), fresh.keys());
    assert_eq!(emu.memory(), fresh.memory());
    assert_eq!(emu.get_display(), fresh.get_display());
}

#[test]
fn load_places_the_program_at_the_start_address() {
    let emu = machine_with(&[0x12, 0x34, 0x56]);
    assert_eq!(&emu.memory()[0x200..0x203], &[0x12, 0x34, 0x56]);
    assert_eq!(emu.memory()[0x1FF], 0);
    assert_eq!(emu.memory()[0x203], 0);
    assert_eq!(&emu.memory()[..80], &FONTSET[..]);
    assert_eq!(emu.program_counter(), 0x200);
}

#[test]
fn loaded_program_is_fetched_big_endian() {
    let mut emu = machine_with(&[0xAB, 0xCD, 0x12, 0x34]);
    assert_eq!(emu.fetch(), Ok(0xABCD));
    assert_eq!(emu.program_counter(), 0x202);
    assert_eq!(emu.fetch(), Ok(0x1234));
    assert_eq!(emu.program_counter(), 0x204);
}

#[test]
fn load_accepts_a_program_that_fills_memory() {
    let program: Vec<u8> = vec![0xA7; 4096 - 512];
    assert_eq!(program.len(), MAX_PROGRAM_SIZE);
    let mut emu = Emu::new();
    assert_eq!(emu.load(&program), Ok(()));
    assert_eq!(emu.memory()[0x200], 0xA7);
    assert_eq!(emu.memory()[4095], 0xA7);
    assert_eq!(emu.fetch(), Ok(0xA7A7));
}

#[test]
fn load_accepts_an_empty_program() {
    let mut emu = Emu::new();
    let before: Vec<u8> = emu.memory().to_vec();
    assert_eq!(emu.load(&[]), Ok(()));
    assert_eq!(emu.memory(), &before[..]);
}

#[test]
fn load_refuses_a_program_that_is_too_large() {
    let program: Vec<u8> = vec![0xFF; 4096 - 512 + 1];
    let mut emu = machine_with(&[0x11, 0x22]);
    let before: Vec<u8> = emu.memory().to_vec();
    assert_eq!(emu.load(&program), Err(Chip8Error::LoadTooLarge));
    assert_eq!(emu.memory(), &before[..]);
    assert_eq!(emu.memory()[0x200], 0x11);
    assert_eq!(emu.memory()[0x202], 0);
}

#[test]
fn keypress_sets_and_clears_a_key() {
    let mut emu = Emu::new();
    assert_eq!(emu.keypress(0xF, true), Ok(()));
    assert_eq!(emu.keypress(0x0, true), Ok(()));
    assert!(emu.keys()[0xF]);
    assert!(emu.keys()[0x0]);
    assert!(!emu.keys()[0x7]);
    assert_eq!(emu.keypress(0xF, false), Ok(()));
    assert!(!emu.keys()[0xF]);
    assert!(emu.keys()[0x0]);
}

#[test]
fn keypress_refuses_an_index_out_of_range() {
    let mut emu = Emu::new();
    assert_eq!(emu.keypress(16, true), Err(Chip8Error::OutOfRangeKeyIndex));
    assert_eq!(emu.keypress(usize::MAX, true), Err(Chip8Error::OutOfRangeKeyIndex));
    assert_eq!(emu.keys(), &[false; 16][..]);
}

#[test]
fn timers_count_down_to_zero_and_stay_there() {
    let mut emu = machine_with(&[0x60, 0x02, 0xF0, 0x15]);
    run(&mut emu, 2);
    assert_eq!(emu.delay_timer(), 2);
    assert!(!emu.tick_timers());
    assert_eq!(emu.delay_timer(), 1);
    assert!(!emu.tick_timers());
    assert_eq!(emu.delay_timer(), 0);
    assert!(!emu.tick_timers());
    assert_eq!(emu.delay_timer(), 0);
    assert_eq!(emu.sound_timer(), 0);
}

#[test]
fn sound_timer_at_one_emits_and_reaches_zero() {
    let mut emu = machine_with(&[0x60, 0x01, 0xF0, 0x18]);
    run(&mut emu, 2);
    assert_eq!(emu.sound_timer(), 1);
    assert!(emu.tick_timers());
    assert_eq!(emu.sound_timer(), 0);
}

#[test]
fn sound_timer_at_zero_is_silent_and_stays() {
    let mut emu = Emu::new();
    assert_eq!(emu.sound_timer(), 0);
    assert!(!emu.tick_timers());
    assert_eq!(emu.sound_timer(), 0);
}

#[test]
fn sound_timer_at_five_is_silent_and_goes_to_four() {
    let mut emu = machine_with(&[0x60, 0x05, 0xF0, 0x18]);
    run(&mut emu, 2);
    assert_eq!(emu.sound_timer(), 5);
    assert!(!emu.tick_timers());
    assert_eq!(emu.sound_timer(), 4);
}

#[test]
fn sound_timer_emits_once_on_the_way_down() {
    let mut emu = machine_with(&[0x60, 0x03, 0xF0, 0x18]);
    run(&mut emu, 2);
    let mut emitted: Vec<bool> = Vec::new();
    for _ in 0..5 {
        emitted.push(emu.tick_timers());
    }
    assert_eq!(emitted, vec![false, false, true, false, false]);
}

#[test]
fn three_instructions_add_two_registers() {
    let mut emu = Emu::new();
    assert_eq!(emu.load(&[0x60, 0x05, 0x61, 0x03, 0x80, 0x14]), Ok(()));
    let start: u16 = emu.program_counter();
    assert_eq!(emu.tick(), Ok(()));
    assert_eq!(emu.tick(), Ok(()));
    assert_eq!(emu.tick(), Ok(()));
    assert_eq!(emu.registers()[0], 8);
    assert_eq!(emu.registers()[1], 3);
    assert_eq!(emu.registers()[15], 0);
    assert_eq!(emu.program_counter(), start + 6);
}

#[test]
fn stack_holds_sixteen_return_addresses() {
    let mut emu = Emu::new();
    for depth in 0..16usize {
        assert_eq!(emu.stack_depth(), depth);
        assert_eq!(emu.push(0x300 + depth as u16), Ok(()));
    }
    assert_eq!(emu.stack_depth(), 16);
    assert_eq!(emu.push(0x400), Err(Chip8Error::StackOverflow));
    assert_eq!(emu.stack_depth(), 16);
    for depth in (0..16usize).rev() {
        assert_eq!(emu.pop(), Ok(0x300 + depth as u16));
        assert_eq!(emu.stack_depth(), depth);
    }
    assert_eq!(emu.pop(), Err(Chip8Error::StackUnderflow));
    assert_eq!(emu.stack_depth(), 0);
}

#[test]
fn fetch_past_the_end_of_memory_is_refused() {
    let mut emu = machine_with(&[0x1F, 0xFF]);
    run(&mut emu, 1);
    assert_eq!(emu.program_counter(), 0xFFF);
    assert_eq!(emu.fetch(), Err(Chip8Error::OutOfRangeAccess));
    assert_eq!(emu.program_counter(), 0xFFF);
    assert_eq!(emu.tick(), Err(Chip8Error::OutOfRangeAccess));
    assert_eq!(emu.program_counter(), 0xFFF);
}

#[test]
fn fetch_reads_the_last_word_of_memory() {
    let mut program: Vec<u8> = vec![0; MAX_PROGRAM_SIZE];
    program[0] = 0x1F;
    program[1] = 0xFE;
    program[MAX_PROGRAM_SIZE - 2] = 0x6B;
    program[MAX_PROGRAM_SIZE - 1] = 0x77;
    let mut emu = machine_with(&program);
    run(&mut emu, 2);
    assert_eq!(emu.registers()[0xB], 0x77);
    assert_eq!(emu.program_counter(), 0x1000);
    assert_eq!(emu.tick(), Err(Chip8Error::OutOfRangeAccess));
}

#[test]
fn keyboard_layout_maps_onto_the_keypad() {
    let layout: [(char, usize); 16] = [
        ('1', 0x1), ('2', 0x2), ('3', 0x3), ('4', 0xC),
        ('q', 0x4), ('w', 0x5), ('e', 0x6), ('r', 0xD),
        ('a', 0x7), ('s', 0x8), ('d', 0x9), ('f', 0xE),
        ('z', 0xA), ('x', 0x0), ('c', 0xB), ('v', 0xF),
    ];
    let mut reached: [bool; 16] = [false; 16];
    for (c, key) in layout {
        assert_eq!(chip8_core::key_to_btn(c), Some(key));
        reached[key] = true;
    }
    assert!(reached.iter().all(|r| *r));
    for c in ['0', '5', 'Q', 'p', ' ', '\n'] {
        assert_eq!(chip8_core::key_to_btn(c), None);
    }
}

#[test]
fn every_key_of_the_layout_is_accepted_by_the_keypad() {
    let mut emu = Emu::new();
    for c in "1234qwerasdfzxcv".chars() {
        let key: usize = chip8_core::key_to_btn(c).unwrap();
        assert_eq!(emu.keypress(key, true), Ok(()));
    }
    assert_eq!(emu.keys(), &[true; 16][..]);
}

#[test]
fn cell_position_is_column_and_row() {
    assert_eq!(chip8_core::cell_position(0), (0, 0));
    assert_eq!(chip8_core::cell_position(63), (63, 0));
    assert_eq!(chip8_core::cell_position(64), (0, 1));
    assert_eq!(chip8_core::cell_position(2047), (63, 31));
    for cell in 0..SCREEN_SIZE {
        let (col, row) = chip8_core::cell_position(cell);
        assert!(col < SCREEN_WIDTH && row < SCREEN_HEIGHT);
        assert_eq!(col + SCREEN_WIDTH * row, cell);
    }
}
