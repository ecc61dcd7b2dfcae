use chippy8::chip8::Chip8;
use chippy8::machine::{Chip8Error, Event, Quirks};
use std::cell::Cell;

const NO_KEYS: [bool; 16] = [false; 16];

fn zero() -> u8 {
    0
}

#[test]
fn a_tick_runs_nine_cycles_by_default() {
    let mut program = Vec::new();
    for r in 0..12u8 {
        program.extend_from_slice(&[0x60 | r, r + 1]);
    }
    let mut vm = Chip8::new();
    vm.load_game(program).unwrap();
    assert_eq!(vm.tick(&NO_KEYS, zero), Ok(vec![]));
    assert_eq!(vm.pc(), 0x200 + 18);
    assert_eq!(&vm.registers()[..], &[1, 2, 3, 4, 5, 6, 7, 8, 9, 0, 0, 0, 0, 0, 0, 0]);
}

#[test]
fn cycles_per_tick_is_clock_speed_over_sixty() {
    for (clock, cycles) in [(0usize, 0u16), (59, 0), (60, 1), (119, 1), (120, 2), (600, 10)] {
        let mut vm = Chip8::with_config(clock, Quirks::canonical());
        vm.load_game(vec![0x60, 0x00].repeat(16)).unwrap();
        assert_eq!(vm.tick(&NO_KEYS, zero), Ok(vec![]));
        assert_eq!(vm.pc(), 0x200 + 2 * cycles, "clock speed {}", clock);
    }
}

#[test]
fn timers_count_down_once_per_tick_and_stop_at_zero() {
    // V0 = 3; delay = V0; V1 = 2; sound = V1; then spin
    let mut vm = Chip8::new();
    vm.load_game(vec![0x60, 3, 0xF0, 0x15, 0x61, 2, 0xF1, 0x18, 0x12, 0x08]).unwrap();
    assert_eq!(vm.tick(&NO_KEYS, zero), Ok(vec![]));
    assert_eq!((vm.delay_timer(), vm.sound_timer()), (2, 1));
    assert_eq!(vm.tick(&NO_KEYS, zero), Ok(vec![Event::Beep]));
    assert_eq!((vm.delay_timer(), vm.sound_timer()), (1, 0));
    assert_eq!(vm.tick(&NO_KEYS, zero), Ok(vec![]));
    assert_eq!((vm.delay_timer(), vm.sound_timer()), (0, 0));
    assert_eq!(vm.tick(&NO_KEYS, zero), Ok(vec![]));
    assert_eq!((vm.delay_timer(), vm.sound_timer()), (0, 0));
}

#[test]
fn delay_timer_can_be_read_back() {
    let mut vm = Chip8::with_config(180, Quirks::canonical());
    vm.load_game(vec![0x60, 9, 0xF0, 0x15, 0xF5, 0x07, 0xF6, 0x07]).unwrap();
    vm.tick(&NO_KEYS, zero).unwrap();
    assert_eq!(vm.registers()[5], 9);
    assert_eq!(vm.delay_timer(), 8);
    vm.cycle(&NO_KEYS, 0).unwrap();
    assert_eq!(vm.registers()[6], 8);
}

#[test]
fn sound_timer_of_five_beeps_once_on_the_fifth_tick() {
    // no cycles per tick: the timers alone
    let mut vm = Chip8::with_config(0, Quirks::canonical());
    vm.load_game(vec![0x60, 5, 0xF0, 0x18]).unwrap();
    vm.cycle(&NO_KEYS, 0).unwrap();
    vm.cycle(&NO_KEYS, 0).unwrap();
    assert_eq!(vm.sound_timer(), 5);
    for tick in 1..=5 {
        let events = vm.tick(&NO_KEYS, zero).unwrap();
        if tick == 5 {
            assert_eq!(events, vec![Event::Beep]);
        } else {
            assert_eq!(events, vec![]);
        }
        assert_eq!(vm.sound_timer(), 5 - tick);
    }
    assert_eq!(vm.tick(&NO_KEYS, zero), Ok(vec![]));
}

#[test]
fn sound_timer_of_five_beeps_once_while_the_program_runs() {
    // V0 = 5; sound = V0; then spin
    let mut vm = Chip8::new();
    vm.load_game(vec![0x60, 5, 0xF0, 0x18, 0x12, 0x04]).unwrap();
    let mut beeps = Vec::new();
    for tick in 1..=8 {
        let events = vm.tick(&NO_KEYS, zero).unwrap();
        if events.contains(&Event::Beep) {
            assert_eq!(events, vec![Event::Beep]);
            beeps.push(tick);
        }
    }
    assert_eq!(beeps, vec![5]);
}

#[test]
fn a_beep_comes_after_the_events_of_the_cycles() {
    // V0 = 1; sound = V0; an unknown opcode; then spin
    let mut vm = Chip8::new();
    vm.load_game(vec![0x60, 1, 0xF0, 0x18, 0x80, 0x0F, 0x12, 0x06]).unwrap();
    assert_eq!(
        vm.tick(&NO_KEYS, zero),
        Ok(vec![Event::UnknownOpcode(0x800F), Event::Beep])
    );
}

#[test]
fn a_fault_ends_the_tick_and_spares_the_timers() {
    // V0 = 4; delay = V0; V1 = 1; return with nothing to return to
    let mut vm = Chip8::new();
    vm.load_game(vec![0x60, 4, 0xF0, 0x15, 0x61, 1, 0x00, 0xEE, 0x62, 2]).unwrap();
    assert_eq!(vm.tick(&NO_KEYS, zero), Err(Chip8Error::StackUnderflow));
    assert_eq!(vm.pc(), 0x206);
    assert_eq!(vm.registers()[1], 1);
    assert_eq!(vm.registers()[2], 0);
    assert_eq!(vm.delay_timer(), 4);
    // the machine stays where the fault left it
    assert_eq!(vm.tick(&NO_KEYS, zero), Err(Chip8Error::StackUnderflow));
    assert_eq!(vm.pc(), 0x206);
}

#[test]
fn random_source_is_asked_once_per_random_instruction() {
    // C0FF, 6105, C20F, then spin
    let mut vm = Chip8::new();
    vm.load_game(vec![0xC0, 0xFF, 0x61, 5, 0xC2, 0x0F, 0x12, 0x06]).unwrap();
    let bytes = [0xA7u8, 0x3C];
    let asked = Cell::new(0usize);
    let rng = || {
        let byte = bytes[asked.get() % bytes.len()];
        asked.set(asked.get() + 1);
        byte
    };
    assert_eq!(vm.tick(&NO_KEYS, rng), Ok(vec![]));
    assert_eq!(asked.get(), 2);
    assert_eq!(vm.registers()[0], 0xA7);
    assert_eq!(vm.registers()[2], 0x0C);
    assert!(!vm.wants_random());
}

#[test]
fn random_source_is_not_asked_after_a_fault() {
    // C0FF, return with nothing to return to, C1FF
    let mut vm = Chip8::new();
    vm.load_game(vec![0xC0, 0xFF, 0x00, 0xEE, 0xC1, 0xFF]).unwrap();
    let asked = Cell::new(0u8);
    let rng = || {
        asked.set(asked.get() + 1);
        asked.get()
    };
    assert_eq!(vm.tick(&NO_KEYS, rng), Err(Chip8Error::StackUnderflow));
    assert_eq!(asked.get(), 1);
    assert_eq!(vm.registers()[0], 1);
    assert_eq!(vm.registers()[1], 0);
}

#[test]
fn wants_random_tells_what_comes_next() {
    let mut vm = Chip8::new();
    vm.load_game(vec![0x60, 1, 0xC0, 0xFF, 0x1F, 0xFF]).unwrap();
    assert!(!vm.wants_random());
    vm.cycle(&NO_KEYS, 0).unwrap();
    assert!(vm.wants_random());
    vm.cycle(&NO_KEYS, 0x55).unwrap();
    vm.cycle(&NO_KEYS, 0).unwrap();
    assert_eq!(vm.pc(), 0xFFF);
    assert!(!vm.wants_random());
}

#[test]
fn random_bytes_go_to_the_random_instructions_in_order() {
    // C0FF, 6105, C20F, C3FF, then spin
    let mut vm = Chip8::new();
    vm.load_game(vec![0xC0, 0xFF, 0x61, 5, 0xC2, 0x0F, 0xC3, 0xFF, 0x12, 0x08]).unwrap();
    let bytes = [0xA7u8, 0x3C, 0x99];
    let next = Cell::new(0usize);
    let rng = || {
        next.set(next.get() + 1);
        bytes[next.get() - 1]
    };
    assert_eq!(vm.tick(&NO_KEYS, rng), Ok(vec![]));
    assert_eq!(vm.registers()[0], 0xA7);
    assert_eq!(vm.registers()[1], 5);
    assert_eq!(vm.registers()[2], 0x0C);
    assert_eq!(vm.registers()[3], 0x99);
    assert_eq!(vm.pc(), 0x208);
}

#[test]
fn a_tick_counts_the_timers_down_after_its_cycles() {
    let mut vm = Chip8::with_config(120, Quirks::canonical());
    vm.load_game(vec![0x60, 1, 0xF0, 0x18, 0x00, 0x01]).unwrap();
    assert_eq!(vm.tick(&NO_KEYS, zero), Ok(vec![Event::Beep]));
    assert_eq!(vm.sound_timer(), 0);
    assert_eq!(
        vm.tick(&NO_KEYS, zero),
        Ok(vec![Event::UnknownOpcode(1), Event::UnknownOpcode(0)])
    );
    assert_eq!(vm.pc(), 0x208);
}

#[test]
fn a_tick_stops_at_a_stack_overflow() {
    let mut vm = Chip8::new();
    vm.load_game(vec![0x60, 9, 0xF0, 0x15, 0x22, 0x04]).unwrap();
    assert_eq!(vm.tick(&NO_KEYS, zero), Ok(vec![]));
    assert_eq!(vm.stack().len(), 7);
    assert_eq!(vm.delay_timer(), 8);
    // nine more calls make 16
    assert_eq!(vm.tick(&NO_KEYS, zero), Ok(vec![]));
    assert_eq!(vm.stack().len(), 16);
    assert_eq!(vm.delay_timer(), 7);
    // the next one overflows, and the timers are left alone
    assert_eq!(vm.tick(&NO_KEYS, zero), Err(Chip8Error::StackOverflow));
    assert_eq!(vm.stack().len(), 16);
    assert_eq!(vm.delay_timer(), 7);
}

#[test]
fn execute_opcode_runs_what_advance_fetched() {
    let mut vm = Chip8::new();
    vm.load_game(vec![0x6A, 0x42, 0x00, 0xEE]).unwrap();
    let code = vm.advance().unwrap();
    assert_eq!(code, 0x6A42);
    assert_eq!(vm.execute_opcode(code, &NO_KEYS, 0), Ok(None));
    assert_eq!(vm.registers()[0xA], 0x42);
    let code = vm.advance().unwrap();
    assert_eq!(vm.execute_opcode(code, &NO_KEYS, 0), Err(Chip8Error::StackUnderflow));
    assert_eq!(vm.pc(), 0x204);
}
