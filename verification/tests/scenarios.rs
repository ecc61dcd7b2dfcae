use chippy8::chip8::Chip8;
use chippy8::machine::{Chip8Error, Event, KeyWait, Quirks};

const NO_KEYS: [bool; 16] = [false; 16];

fn boot(program: &[u8]) -> Chip8 {
    let mut vm = Chip8::new();
    vm.load_game(program.to_vec()).unwrap();
    vm
}

fn step(vm: &mut Chip8, cycles: usize) {
    for _ in 0..cycles {
        assert_eq!(vm.cycle(&NO_KEYS, 0), Ok(None));
    }
}

#[test]
fn fresh_machine_is_zeroed_with_font_loaded() {
    let vm = Chip8::new();
    assert_eq!(vm.pc(), 0x200);
    assert!(vm.registers().iter().all(|v| *v == 0));
    assert_eq!(vm.index(), 0);
    assert!(vm.stack().is_empty());
    assert_eq!(vm.pixels().len(), 2048);
    assert!(vm.pixels().iter().all(|p| !*p));
    assert_eq!(&vm.memory()[0..5], &[0xF0, 0x90, 0x90, 0x90, 0xF0]);
    assert_eq!(vm.delay_timer(), 0);
    assert_eq!(vm.sound_timer(), 0);
    assert_eq!(vm.key_wait(), KeyWait::Running);
    assert_eq!(vm.clock_speed(), 540);
    assert_eq!(vm.quirks(), Quirks::canonical());
}

#[test]
fn fresh_machine_holds_the_whole_font() {
    let vm = Chip8::new();
    let font = chippy8::font::font_table();
    assert_eq!(&vm.memory()[0..80], &font[..]);
    // glyph F
    assert_eq!(&vm.memory()[75..80], &[0xF0, 0x80, 0xF0, 0x80, 0x80]);
    assert!(vm.memory()[80..].iter().all(|b| *b == 0));
}

#[test]
fn draws_a_row_of_eight_pixels_without_collision() {
    let mut image = vec![0u8; 0xF1];
    image[0..8].copy_from_slice(&[0xA2, 0xF0, 0x60, 0x05, 0x61, 0x00, 0xD0, 0x15]);
    image[0xF0] = 0xFF;
    let mut vm = boot(&image);
    step(&mut vm, 4);
    assert_eq!(vm.index(), 0x2F0);
    assert_eq!(vm.registers()[0], 5);
    assert_eq!(vm.registers()[1], 0);
    for x in 0..64 {
        assert_eq!(vm.pixels()[x], (5..13).contains(&x), "column {}", x);
    }
    assert!(vm.pixels()[64..].iter().all(|p| !*p));
    assert_eq!(vm.registers()[0xF], 0);
    assert_eq!(vm.pc(), 0x208);
}

#[test]
fn bcd_of_234_is_2_3_4() {
    // V7 = 234; I = 0x300; BCD V7
    let mut vm = boot(&[0x67, 234, 0xA3, 0x00, 0xF7, 0x33]);
    step(&mut vm, 3);
    assert_eq!(vm.memory()[0x300], 2);
    assert_eq!(vm.memory()[0x301], 3);
    assert_eq!(vm.memory()[0x302], 4);
    assert_eq!(vm.index(), 0x300);
}

#[test]
fn bcd_of_small_values_pads_with_zero() {
    let mut vm = boot(&[0x60, 7, 0xA3, 0x00, 0xF0, 0x33, 0x60, 255, 0xA3, 0x10, 0xF0, 0x33]);
    step(&mut vm, 6);
    assert_eq!(&vm.memory()[0x300..0x303], &[0, 0, 7]);
    assert_eq!(&vm.memory()[0x310..0x313], &[2, 5, 5]);
}

#[test]
fn load_writes_the_image_at_0x200() {
    let mut vm = Chip8::new();
    assert_eq!(vm.load_game(vec![1, 2, 3]), Ok(()));
    assert_eq!(&vm.memory()[0x1FF..0x204], &[0, 1, 2, 3, 0]);
    assert_eq!(vm.pc(), 0x200);
}

#[test]
fn load_accepts_an_image_that_fills_memory() {
    let mut vm = Chip8::new();
    assert_eq!(vm.load_game(vec![0xAB; 3584]), Ok(()));
    assert_eq!(vm.memory()[0x200], 0xAB);
    assert_eq!(vm.memory()[0xFFF], 0xAB);
    assert_eq!(vm.memory()[0x1FF], 0);
}

#[test]
fn load_refuses_an_oversized_image() {
    let mut vm = Chip8::new();
    assert_eq!(vm.load_game(vec![0xAB; 3585]), Err(Chip8Error::OversizedCartridge));
    assert!(vm.memory()[0x200..].iter().all(|b| *b == 0));
    assert_eq!(&vm.memory()[0..5], &[0xF0, 0x90, 0x90, 0x90, 0xF0]);
}

#[test]
fn load_of_an_empty_image_changes_nothing() {
    let mut vm = Chip8::new();
    assert_eq!(vm.load_game(Vec::new()), Ok(()));
    assert!(vm.memory()[0x200..].iter().all(|b| *b == 0));
}

#[test]
fn unknown_opcodes_are_reported_and_skipped() {
    for code in [0x0000u16, 0x00E1, 0x8AB8, 0x8ABF, 0xE19F, 0xE100, 0xF1FF, 0xF000] {
        let mut vm = boot(&[(code >> 8) as u8, code as u8]);
        assert_eq!(vm.cycle(&NO_KEYS, 0), Ok(Some(Event::UnknownOpcode(code))));
        assert_eq!(vm.pc(), 0x202);
        assert!(vm.registers().iter().all(|v| *v == 0));
        assert!(vm.pixels().iter().all(|p| !*p));
    }
}

#[test]
fn jump_sets_the_program_counter() {
    let mut vm = boot(&[0x1A, 0xBC]);
    step(&mut vm, 1);
    assert_eq!(vm.pc(), 0xABC);
}

#[test]
fn jump_with_offset_adds_v0() {
    let mut vm = boot(&[0x60, 0xFF, 0xBF, 0xFF]);
    step(&mut vm, 2);
    assert_eq!(vm.pc(), 0xFFF + 0xFF);
}

#[test]
fn call_pushes_the_return_address_and_return_pops_it() {
    // 0x200: call 0x206; 0x206: return
    let mut vm = boot(&[0x22, 0x06, 0x00, 0x00, 0x00, 0x00, 0x00, 0xEE]);
    step(&mut vm, 1);
    assert_eq!(vm.pc(), 0x206);
    assert_eq!(vm.stack(), &[0x202]);
    step(&mut vm, 1);
    assert_eq!(vm.pc(), 0x202);
    assert!(vm.stack().is_empty());
}

#[test]
fn return_ignores_the_second_nibble() {
    let mut vm = boot(&[0x22, 0x04, 0x00, 0x00, 0x07, 0xEE]);
    step(&mut vm, 2);
    assert_eq!(vm.pc(), 0x202);
}

#[test]
fn return_with_empty_stack_is_an_underflow() {
    let mut vm = boot(&[0x00, 0xEE]);
    assert_eq!(vm.cycle(&NO_KEYS, 0), Err(Chip8Error::StackUnderflow));
    // the faulting cycle has no effect
    assert_eq!(vm.pc(), 0x200);
    assert!(vm.stack().is_empty());
}

#[test]
fn seventeenth_nested_call_is_an_overflow() {
    // call self, forever
    let mut vm = boot(&[0x22, 0x00]);
    step(&mut vm, 16);
    assert_eq!(vm.stack().len(), 16);
    assert_eq!(vm.cycle(&NO_KEYS, 0), Err(Chip8Error::StackOverflow));
    assert_eq!(vm.stack().len(), 16);
    assert_eq!(vm.pc(), 0x200);
}

#[test]
fn running_off_the_end_of_memory_faults() {
    let mut vm = boot(&[0x1F, 0xFF]);
    step(&mut vm, 1);
    assert_eq!(vm.pc(), 0xFFF);
    assert_eq!(vm.cycle(&NO_KEYS, 0), Err(Chip8Error::OutOfBoundsMemoryAccess));
    assert_eq!(vm.advance(), Err(Chip8Error::OutOfBoundsMemoryAccess));
    assert_eq!(vm.pc(), 0xFFF);
}

#[test]
fn last_opcode_of_memory_can_be_fetched() {
    let mut image = vec![0u8; 3584];
    image[0] = 0x1F;
    image[1] = 0xFE;
    image[3582] = 0x6A;
    image[3583] = 0x11;
    let mut vm = boot(&image);
    step(&mut vm, 2);
    assert_eq!(vm.registers()[0xA], 0x11);
    assert_eq!(vm.pc(), 0x1000);
    assert_eq!(vm.cycle(&NO_KEYS, 0), Err(Chip8Error::OutOfBoundsMemoryAccess));
}

#[test]
fn advance_returns_the_big_endian_opcode() {
    let mut vm = boot(&[0x12, 0x34]);
    assert_eq!(vm.advance(), Ok(0x1234));
    assert_eq!(vm.pc(), 0x202);
}

#[test]
fn skips_compare_register_with_immediate() {
    // V0 = 7; skip if V0 == 7
    let mut vm = boot(&[0x60, 0x07, 0x30, 0x07]);
    step(&mut vm, 2);
    assert_eq!(vm.pc(), 0x206);
    let mut vm = boot(&[0x60, 0x07, 0x30, 0x08]);
    step(&mut vm, 2);
    assert_eq!(vm.pc(), 0x204);
    let mut vm = boot(&[0x60, 0x07, 0x40, 0x08]);
    step(&mut vm, 2);
    assert_eq!(vm.pc(), 0x206);
    let mut vm = boot(&[0x60, 0x07, 0x40, 0x07]);
    step(&mut vm, 2);
    assert_eq!(vm.pc(), 0x204);
}

#[test]
fn skips_compare_two_registers() {
    // V0 = 7; V1 = 7; skip if V0 == V1
    let mut vm = boot(&[0x60, 0x07, 0x61, 0x07, 0x50, 0x10]);
    step(&mut vm, 3);
    assert_eq!(vm.pc(), 0x208);
    let mut vm = boot(&[0x60, 0x07, 0x61, 0x07, 0x90, 0x10]);
    step(&mut vm, 3);
    assert_eq!(vm.pc(), 0x206);
    let mut vm = boot(&[0x60, 0x07, 0x61, 0x08, 0x50, 0x10]);
    step(&mut vm, 3);
    assert_eq!(vm.pc(), 0x206);
    let mut vm = boot(&[0x60, 0x07, 0x61, 0x08, 0x90, 0x10]);
    step(&mut vm, 3);
    assert_eq!(vm.pc(), 0x208);
}

#[test]
fn register_skips_take_the_low_nibble_as_padding() {
    let mut vm = boot(&[0x50, 0x1F]);
    step(&mut vm, 1);
    assert_eq!(vm.pc(), 0x204);
    let mut vm = boot(&[0x60, 0x01, 0x90, 0x1F]);
    step(&mut vm, 2);
    assert_eq!(vm.pc(), 0x206);
}

#[test]
fn add_immediate_wraps_and_leaves_the_flag() {
    // VF = 9; V3 = 250; V3 += 10
    let mut vm = boot(&[0x6F, 0x09, 0x63, 250, 0x73, 10]);
    step(&mut vm, 3);
    assert_eq!(vm.registers()[3], 4);
    assert_eq!(vm.registers()[0xF], 9);
}

#[test]
fn index_loads_adds_and_wraps_at_sixteen_bits() {
    // I = 0xFFF; V0 = 0xFF; I += V0
    let mut vm = boot(&[0xAF, 0xFF, 0x60, 0xFF, 0xF0, 0x1E]);
    step(&mut vm, 3);
    assert_eq!(vm.index(), 0xFFF + 0xFF);
    assert_eq!(vm.registers()[0xF], 0);
    // keep adding until the sum passes 0xFFFF
    let mut program = vec![0x60, 0xFF];
    for _ in 0..258 {
        program.extend_from_slice(&[0xF0, 0x1E]);
    }
    let mut vm = boot(&program);
    step(&mut vm, 258);
    assert_eq!(vm.index(), 257 * 255);
    step(&mut vm, 1);
    assert_eq!(vm.index(), ((258u32 * 255) % 65536) as u16);
}

#[test]
fn glyph_address_is_five_times_the_digit() {
    let mut vm = boot(&[0x64, 0x0A, 0xF4, 0x29]);
    step(&mut vm, 2);
    assert_eq!(vm.index(), 50);
    assert_eq!(&vm.memory()[50..55], &[0xF0, 0x90, 0xF0, 0x90, 0x90]);
    let mut vm = boot(&[0x64, 0xFF, 0xF4, 0x29]);
    step(&mut vm, 2);
    assert_eq!(vm.index(), 1275);
}

#[test]
fn store_and_load_move_v0_to_vx_inclusive() {
    // V0..V3 = 1, 2, 3, 4; I = 0x300; store V0..=V2
    let mut vm = boot(&[0x60, 1, 0x61, 2, 0x62, 3, 0x63, 4, 0xA3, 0x00, 0xF2, 0x55]);
    step(&mut vm, 6);
    assert_eq!(&vm.memory()[0x300..0x304], &[1, 2, 3, 0]);
    assert_eq!(vm.index(), 0x300);
    // I = 0x200; load V0..=V1 from the image itself
    let mut vm = boot(&[0xA2, 0x00, 0x65, 0x77, 0xF1, 0x65]);
    step(&mut vm, 3);
    assert_eq!(vm.registers()[0], 0xA2);
    assert_eq!(vm.registers()[1], 0x00);
    assert_eq!(vm.registers()[2], 0);
    assert_eq!(vm.registers()[5], 0x77);
    assert_eq!(vm.index(), 0x200);
}

#[test]
fn store_and_load_of_all_sixteen_registers() {
    let mut program = Vec::new();
    for r in 0..16u8 {
        program.extend_from_slice(&[0x60 | r, 0x10 + r]);
    }
    program.extend_from_slice(&[0xA4, 0x00, 0xFF, 0x55]);
    let mut vm = boot(&program);
    step(&mut vm, 18);
    for r in 0..16usize {
        assert_eq!(vm.memory()[0x400 + r], 0x10 + r as u8);
    }
    assert_eq!(vm.memory()[0x410], 0);
}

#[test]
fn memory_accesses_past_the_end_fault_and_change_nothing() {
    // I = 0xFFE; BCD
    let mut vm = boot(&[0xAF, 0xFE, 0x60, 123, 0xF0, 0x33]);
    step(&mut vm, 2);
    assert_eq!(vm.cycle(&NO_KEYS, 0), Err(Chip8Error::OutOfBoundsMemoryAccess));
    assert_eq!(&vm.memory()[0xFFE..], &[0, 0]);
    assert_eq!(vm.pc(), 0x204);
    // I = 0xFFD; BCD fits exactly
    let mut vm = boot(&[0xAF, 0xFD, 0x60, 123, 0xF0, 0x33]);
    step(&mut vm, 3);
    assert_eq!(&vm.memory()[0xFFD..], &[1, 2, 3]);
    // I = 0xFFF; store V0..=V1
    let mut vm = boot(&[0xAF, 0xFF, 0x60, 9, 0xF1, 0x55]);
    step(&mut vm, 2);
    assert_eq!(vm.cycle(&NO_KEYS, 0), Err(Chip8Error::OutOfBoundsMemoryAccess));
    assert_eq!(vm.memory()[0xFFF], 0);
    // I = 0xFFF; load V0..=V1
    let mut vm = boot(&[0xAF, 0xFF, 0x60, 9, 0xF1, 0x65]);
    step(&mut vm, 2);
    assert_eq!(vm.cycle(&NO_KEYS, 0), Err(Chip8Error::OutOfBoundsMemoryAccess));
    assert_eq!(vm.registers()[0], 9);
    // I = 0xFFF; store V0 alone fits
    let mut vm = boot(&[0xAF, 0xFF, 0x60, 9, 0xF0, 0x55]);
    step(&mut vm, 3);
    assert_eq!(vm.memory()[0xFFF], 9);
}

#[test]
fn store_and_load_can_leave_the_index_past_the_block() {
    let quirks = Quirks { shift_uses_vy: false, increment_index: true, wrap_sprites: false };
    let mut vm = Chip8::with_config(540, quirks);
    vm.load_game(vec![0xA3, 0x00, 0xF2, 0x55, 0xF1, 0x65]).unwrap();
    step(&mut vm, 2);
    assert_eq!(vm.index(), 0x303);
    step(&mut vm, 1);
    assert_eq!(vm.index(), 0x305);
}
