use chippy8::arith::{add_carry, shift_left, shift_right, sub_no_borrow};
use chippy8::display::{bit_at, target_of};
use chippy8::memory::{
    copy_program, fresh_memory, load_registers, read_opcode, scan_keys, store_registers,
    write_bcd,
};

#[test]
fn eight_bit_arithmetic_with_flags() {
    assert_eq!(add_carry(0, 0), (0, false));
    assert_eq!(add_carry(255, 255), (254, true));
    assert_eq!(add_carry(128, 128), (0, true));
    assert_eq!(add_carry(127, 128), (255, false));
    assert_eq!(sub_no_borrow(0, 0), (0, true));
    assert_eq!(sub_no_borrow(0, 1), (255, false));
    assert_eq!(sub_no_borrow(0, 255), (1, false));
    assert_eq!(sub_no_borrow(255, 0), (255, true));
    assert_eq!(shift_right(0xFF), (0x7F, true));
    assert_eq!(shift_right(0xFE), (0x7F, false));
    assert_eq!(shift_left(0xFF), (0xFE, true));
    assert_eq!(shift_left(0x7F), (0xFE, false));
    for a in 0..=255u8 {
        for b in 0..=255u8 {
            assert_eq!(add_carry(a, b), a.overflowing_add(b));
            let (diff, borrow) = a.overflowing_sub(b);
            assert_eq!(sub_no_borrow(a, b), (diff, !borrow));
        }
    }
}

#[test]
fn sprite_bits_count_from_the_left() {
    assert!(bit_at(0b1000_0000, 0));
    assert!(!bit_at(0b1000_0000, 1));
    assert!(bit_at(0b0000_0001, 7));
    assert!(!bit_at(0b0000_0001, 6));
    for c in 0..8u8 {
        assert!(bit_at(0xFF, c));
        assert!(!bit_at(0x00, c));
        assert_eq!(bit_at(0b0010_0100, c), c == 2 || c == 5);
    }
}

#[test]
fn sprite_bits_land_row_by_row() {
    assert_eq!(target_of(0, 0, false, 0, 0), Some(0));
    assert_eq!(target_of(5, 0, false, 0, 3), Some(8));
    assert_eq!(target_of(5, 2, false, 1, 3), Some(3 * 64 + 8));
    assert_eq!(target_of(56, 31, false, 0, 7), Some(2047));
    assert_eq!(target_of(57, 31, false, 0, 7), None);
    assert_eq!(target_of(56, 31, false, 1, 7), None);
    assert_eq!(target_of(255, 255, false, 14, 7), None);
    assert_eq!(target_of(57, 31, true, 0, 7), Some(31 * 64));
    assert_eq!(target_of(56, 31, true, 1, 7), Some(63));
    assert_eq!(target_of(255, 255, true, 14, 7), Some(13 * 64 + 6));
    assert_eq!(target_of(64, 32, true, 0, 0), Some(0));
}

#[test]
fn memory_starts_with_the_font() {
    let memory = fresh_memory();
    assert_eq!(&memory[0..5], &[0xF0, 0x90, 0x90, 0x90, 0xF0]);
    assert_eq!(&memory[5..10], &[0x20, 0x60, 0x20, 0x20, 0x70]);
    assert_eq!(memory[79], 0x80);
    assert!(memory[80..].iter().all(|b| *b == 0));
}

#[test]
fn opcodes_are_big_endian() {
    let mut memory = [0u8; 4096];
    memory[0x200] = 0xAB;
    memory[0x201] = 0xCD;
    memory[4094] = 0x12;
    memory[4095] = 0x34;
    assert_eq!(read_opcode(&memory, 0x200), 0xABCD);
    assert_eq!(read_opcode(&memory, 0x201), 0xCD00);
    assert_eq!(read_opcode(&memory, 4094), 0x1234);
}

#[test]
fn bytes_move_between_registers_and_memory() {
    let mut memory = [0u8; 4096];
    let mut reg = [0u8; 16];
    for (k, r) in reg.iter_mut().enumerate() {
        *r = 0xA0 + k as u8;
    }
    store_registers(&mut memory, &reg, 4080, 15);
    assert_eq!(&memory[4080..], &reg[..]);
    assert_eq!(memory[4079], 0);
    store_registers(&mut memory, &reg, 10, 0);
    assert_eq!(&memory[9..12], &[0, 0xA0, 0]);
    let mut loaded = [1u8; 16];
    load_registers(&mut loaded, &memory, 4082, 3);
    assert_eq!(&loaded[..], &[0xA2, 0xA3, 0xA4, 0xA5, 1, 1, 1, 1, 1, 1, 1, 1, 1, 1, 1, 1]);
    write_bcd(&mut memory, 4093, 109);
    assert_eq!(&memory[4092..], &[0xAC, 1, 0, 9]);
    let mut memory = [7u8; 4096];
    copy_program(&mut memory, &vec![1, 2, 3]);
    assert_eq!(&memory[0x1FF..0x204], &[7, 1, 2, 3, 7]);
}

#[test]
fn key_scan_finds_the_lowest_key_down() {
    let mut keys = [false; 16];
    assert_eq!(scan_keys(&keys), None);
    keys[15] = true;
    assert_eq!(scan_keys(&keys), Some(15));
    keys[7] = true;
    assert_eq!(scan_keys(&keys), Some(7));
    keys[0] = true;
    assert_eq!(scan_keys(&keys), Some(0));
}
