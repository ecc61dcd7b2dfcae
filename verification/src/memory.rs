//! Storage: reading opcodes, and the instructions that move bytes between
//! the registers and memory.

use vstd::prelude::*;
use crate::font::{font_set, font_table, FONT_BYTES};
use crate::machine::{first_pressed, first_pressed_from, initial_memory, opcode_at};

verus! {

/// Memory with the font loaded at address 0 and zero everywhere else.
pub fn fresh_memory() -> (memory: [u8; 4096])
    ensures
        memory@ == initial_memory(),
{
    let mut memory: [u8; 4096] = [0; 4096];
    let font = font_table();
    let mut a: usize = 0;
    while a < FONT_BYTES
        invariant
            a <= FONT_BYTES,
            font@ == font_set(),
            forall|k: int| 0 <= k < a ==> memory@[k] == font_set()[k],
            forall|k: int| a <= k < 4096 ==> memory@[k] == 0,
        decreases FONT_BYTES - a,
    {
        memory[a] = font[a];
        a += 1;
    }
    memory
}

/// Reads the big-endian opcode at `addr`.
pub fn read_opcode(memory: &[u8; 4096], addr: usize) -> (code: u16)
    requires
        addr + 1 < 4096,
    ensures
        code == opcode_at(memory@, addr as int),
{
    let hi: u16 = memory[addr] as u16;
    let lo: u16 = memory[addr + 1] as u16;
    assert((hi << 8u16) | lo == hi * 256 + lo) by (bit_vector)
        requires
            hi < 256,
            lo < 256,
    ;
    (hi << 8) | lo
}

/// Writes the hundreds, tens and units digit of `v` at `start`, `start + 1`
/// and `start + 2`.
pub fn write_bcd(memory: &mut [u8; 4096], start: usize, v: u8)
    requires
        start + 3 <= 4096,
    ensures
        final(memory)@ == old(memory)@.update(start as int, v / 100).update(
            start + 1,
            (v / 10) % 10,
        ).update(start + 2, v % 10),
{
    memory[start] = v / 100;
    memory[start + 1] = (v / 10) % 10;
    memory[start + 2] = v % 10;
}

/// Copies registers `0..=x` to `memory[start..]`.
pub fn store_registers(memory: &mut [u8; 4096], reg: &[u8; 16], start: usize, x: usize)
    requires
        x < 16,
        start + x + 1 <= 4096,
    ensures
        final(memory)@ == Seq::new(
            4096,
            |a: int|
                if start <= a <= start + x {
                    reg@[a - start]
                } else {
                    old(memory)@[a]
                },
        ),
{
    let ghost before = memory@;
    let mut k: usize = 0;
    while k <= x
        invariant
            x < 16,
            k <= x + 1,
            start + x + 1 <= 4096,
            before.len() == 4096,
            forall|a: int|
                0 <= a < 4096 ==> #[trigger] memory@[a] == if start <= a < start + k {
                    reg@[a - start]
                } else {
                    before[a]
                },
        decreases x + 1 - k,
    {
        memory[start + k] = reg[k];
        k += 1;
    }
}

/// Copies `memory[start..]` to registers `0..=x`.
pub fn load_registers(reg: &mut [u8; 16], memory: &[u8; 4096], start: usize, x: usize)
    requires
        x < 16,
        start + x + 1 <= 4096,
    ensures
        final(reg)@ == Seq::new(
            16,
            |k: int|
                if k <= x {
                    memory@[start + k]
                } else {
                    old(reg)@[k]
                },
        ),
{
    let ghost before = reg@;
    let mut k: usize = 0;
    while k <= x
        invariant
            x < 16,
            k <= x + 1,
            start + x + 1 <= 4096,
            before.len() == 16,
            forall|j: int|
                0 <= j < 16 ==> #[trigger] reg@[j] == if j < k {
                    memory@[start + j]
                } else {
                    before[j]
                },
        decreases x + 1 - k,
    {
        reg[k] = memory[start + k];
        k += 1;
    }
}

/// Copies a program image to `memory[0x200..]`.
pub fn copy_program(memory: &mut [u8; 4096], data: &Vec<u8>)
    requires
        data@.len() <= 3584,
    ensures
        final(memory)@ == Seq::new(
            4096,
            |a: int|
                if 0x200 <= a < 0x200 + data@.len() {
                    data@[a - 0x200]
                } else {
                    old(memory)@[a]
                },
        ),
{
    let ghost before = memory@;
    let mut k: usize = 0;
    while k < data.len()
        invariant
            k <= data@.len() <= 3584,
            before.len() == 4096,
            forall|a: int|
                0 <= a < 4096 ==> #[trigger] memory@[a] == if 0x200 <= a < 0x200 + k {
                    data@[a - 0x200]
                } else {
                    before[a]
                },
        decreases data@.len() - k,
    {
        memory[0x200 + k] = data[k];
        k += 1;
    }
}

/// Scans the keys in ascending order for the first that is down.
pub fn scan_keys(keys: &[bool; 16]) -> (found: Option<usize>)
    ensures
        found == first_pressed(keys@),
{
    let mut k: usize = 0;
    while k < 16
        invariant
            k <= 16,
            first_pressed_from(keys@, k as int) == first_pressed(keys@),
        decreases 16 - k,
    {
        if keys[k] {
            return Some(k);
        }
        k += 1;
    }
    None
}

} // verus!
