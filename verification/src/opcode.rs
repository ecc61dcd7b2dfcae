//! Opcode fields and the decoder: from a 16-bit instruction word to the
//! instruction it stands for.

use vstd::prelude::*;

verus! {

/// The primary group of an opcode: its top nibble.
pub open spec fn op_group(code: u16) -> u16 {
    code / 4096
}

/// The register operand X: the second nibble.
pub open spec fn op_x(code: u16) -> u16 {
    (code / 256) % 16
}

/// The register operand Y: the third nibble.
pub open spec fn op_y(code: u16) -> u16 {
    (code / 16) % 16
}

/// The 4-bit immediate N: the lowest nibble.
pub open spec fn op_n(code: u16) -> u16 {
    code % 16
}

/// The 8-bit immediate NN: the low byte.
pub open spec fn op_nn(code: u16) -> u16 {
    code % 256
}

/// The 12-bit address NNN: the low three nibbles.
pub open spec fn op_nnn(code: u16) -> u16 {
    code % 4096
}

/// A 16-bit value as an index.
pub fn us(u: u16) -> (r: usize)
    ensures
        r == u,
{
    u as usize
}

/// An 8-bit value as an index.
pub fn us8(u: u8) -> (r: usize)
    ensures
        r == u,
{
    u as usize
}

/// The primary group: the top nibble.
pub fn group(code: u16) -> (r: u16)
    ensures
        r == op_group(code),
        r < 16,
{
    assert(code >> 12u16 == code / 4096u16 && code >> 12u16 < 16u16) by (bit_vector);
    code >> 12
}

/// The register operand X.
pub fn x(code: u16) -> (r: u16)
    ensures
        r == op_x(code),
        r < 16,
{
    assert((code & 0x0F00u16) >> 8u16 == (code / 256u16) % 16u16) by (bit_vector);
    (code & 0x0F00) >> 8
}

/// The register operand X, as an index.
pub fn ux(code: u16) -> (r: usize)
    ensures
        r == op_x(code),
        r < 16,
{
    us(x(code))
}

/// The register operand Y.
pub fn y(code: u16) -> (r: u16)
    ensures
        r == op_y(code),
        r < 16,
{
    assert((code & 0x00F0u16) >> 4u16 == (code / 16u16) % 16u16) by (bit_vector);
    (code & 0x00F0) >> 4
}

/// The register operand Y, as an index.
pub fn uy(code: u16) -> (r: usize)
    ensures
        r == op_y(code),
        r < 16,
{
    us(y(code))
}

/// The 4-bit immediate N.
pub fn n(code: u16) -> (r: u16)
    ensures
        r == op_n(code),
        r < 16,
{
    assert(code & 0x000Fu16 == code % 16u16) by (bit_vector);
    code & 0x000F
}

/// The 8-bit immediate NN.
pub fn nn(code: u16) -> (r: u16)
    ensures
        r == op_nn(code),
        r < 256,
{
    assert(code & 0x00FFu16 == code % 256u16) by (bit_vector);
    code & 0x00FF
}

/// The 12-bit address NNN.
pub fn nnn(code: u16) -> (r: u16)
    ensures
        r == op_nnn(code),
        r < 4096,
{
    assert(code & 0x0FFFu16 == code % 4096u16) by (bit_vector);
    code & 0x0FFF
}

/// One decoded instruction. Register operands are indices below 16.
#[derive(Clone, Copy, Debug, PartialEq, Eq, Structural)]
pub enum Instruction {
    /// `0_E0`: blank the framebuffer.
    ClearScreen,
    /// `0_EE`: return from a subroutine.
    Return,
    /// `1NNN`: jump to `nnn`.
    Jump { nnn: u16 },
    /// `2NNN`: call the subroutine at `nnn`.
    Call { nnn: u16 },
    /// `3XNN`: skip the next instruction if VX equals `nn`.
    SkipEqImm { x: usize, nn: u8 },
    /// `4XNN`: skip the next instruction if VX differs from `nn`.
    SkipNeImm { x: usize, nn: u8 },
    /// `5XY_`: skip the next instruction if VX equals VY.
    SkipEqReg { x: usize, y: usize },
    /// `6XNN`: VX becomes `nn`.
    LoadImm { x: usize, nn: u8 },
    /// `7XNN`: add `nn` to VX, wrapping, flag untouched.
    AddImm { x: usize, nn: u8 },
    /// `8XY0`: VX becomes VY.
    Move { x: usize, y: usize },
    /// `8XY1`: VX becomes VX OR VY.
    Or { x: usize, y: usize },
    /// `8XY2`: VX becomes VX AND VY.
    And { x: usize, y: usize },
    /// `8XY3`: VX becomes VX XOR VY.
    Xor { x: usize, y: usize },
    /// `8XY4`: VX becomes VX + VY, VF the carry.
    Add { x: usize, y: usize },
    /// `8XY5`: VX becomes VX - VY, VF is 1 unless a borrow occurred.
    Sub { x: usize, y: usize },
    /// `8XY6`: shift right by one, VF the bit shifted out.
    ShiftRight { x: usize, y: usize },
    /// `8XY7`: VX becomes VY - VX, VF is 1 unless a borrow occurred.
    SubFrom { x: usize, y: usize },
    /// `8XYE`: shift left by one, VF the bit shifted out.
    ShiftLeft { x: usize, y: usize },
    /// `9XY_`: skip the next instruction if VX differs from VY.
    SkipNeReg { x: usize, y: usize },
    /// `ANNN`: I becomes `nnn`.
    LoadIndex { nnn: u16 },
    /// `BNNN`: jump to `nnn` plus V0.
    JumpOffset { nnn: u16 },
    /// `CXNN`: VX becomes a random byte AND `nn`.
    Random { x: usize, nn: u8 },
    /// `DXYN`: draw an `n`-row sprite at (VX, VY).
    Draw { x: usize, y: usize, n: usize },
    /// `EX9E`: skip the next instruction if the key in VX is down.
    SkipKeyDown { x: usize },
    /// `EXA1`: skip the next instruction if the key in VX is up.
    SkipKeyUp { x: usize },
    /// `FX07`: VX becomes the delay timer.
    ReadDelay { x: usize },
    /// `FX0A`: wait for a key and store it in VX.
    WaitKey { x: usize },
    /// `FX15`: the delay timer becomes VX.
    SetDelay { x: usize },
    /// `FX18`: the sound timer becomes VX.
    SetSound { x: usize },
    /// `FX1E`: add VX to I.
    AddIndex { x: usize },
    /// `FX29`: I becomes the address of the glyph for VX.
    Glyph { x: usize },
    /// `FX33`: store the decimal digits of VX at I, I+1, I+2.
    Bcd { x: usize },
    /// `FX55`: store V0..=VX at I.
    Store { x: usize },
    /// `FX65`: load V0..=VX from I.
    Load { x: usize },
    /// Any other bit pattern.
    Unknown { code: u16 },
}

impl Instruction {
    /// Every operand lies in the range its field width allows.
    pub open spec fn wf(self) -> bool {
        match self {
            Instruction::ClearScreen | Instruction::Return | Instruction::Unknown { .. } => true,
            Instruction::Jump { nnn }
            | Instruction::Call { nnn }
            | Instruction::LoadIndex { nnn }
            | Instruction::JumpOffset { nnn } => nnn < 4096,
            Instruction::SkipEqImm { x, .. }
            | Instruction::SkipNeImm { x, .. }
            | Instruction::LoadImm { x, .. }
            | Instruction::AddImm { x, .. }
            | Instruction::Random { x, .. }
            | Instruction::SkipKeyDown { x }
            | Instruction::SkipKeyUp { x }
            | Instruction::ReadDelay { x }
            | Instruction::WaitKey { x }
            | Instruction::SetDelay { x }
            | Instruction::SetSound { x }
            | Instruction::AddIndex { x }
            | Instruction::Glyph { x }
            | Instruction::Bcd { x }
            | Instruction::Store { x }
            | Instruction::Load { x } => x < 16,
            Instruction::SkipEqReg { x, y }
            | Instruction::Move { x, y }
            | Instruction::Or { x, y }
            | Instruction::And { x, y }
            | Instruction::Xor { x, y }
            | Instruction::Add { x, y }
            | Instruction::Sub { x, y }
            | Instruction::ShiftRight { x, y }
            | Instruction::SubFrom { x, y }
            | Instruction::ShiftLeft { x, y }
            | Instruction::SkipNeReg { x, y } => x < 16 && y < 16,
            Instruction::Draw { x, y, n } => x < 16 && y < 16 && n < 16,
        }
    }
}

/// The register-to-register group `8XY_`, selected by the lowest nibble.
pub open spec fn decode_alu(code: u16) -> Instruction {
    let x = op_x(code) as usize;
    let y = op_y(code) as usize;
    let n = op_n(code);
    if n == 0x0 {
        Instruction::Move { x, y }
    } else if n == 0x1 {
        Instruction::Or { x, y }
    } else if n == 0x2 {
        Instruction::And { x, y }
    } else if n == 0x3 {
        Instruction::Xor { x, y }
    } else if n == 0x4 {
        Instruction::Add { x, y }
    } else if n == 0x5 {
        Instruction::Sub { x, y }
    } else if n == 0x6 {
        Instruction::ShiftRight { x, y }
    } else if n == 0x7 {
        Instruction::SubFrom { x, y }
    } else if n == 0xE {
        Instruction::ShiftLeft { x, y }
    } else {
        Instruction::Unknown { code }
    }
}

/// The timer, key and memory group `FX__`, selected by the low byte.
pub open spec fn decode_misc(code: u16) -> Instruction {
    let x = op_x(code) as usize;
    let nn = op_nn(code);
    if nn == 0x07 {
        Instruction::ReadDelay { x }
    } else if nn == 0x0A {
        Instruction::WaitKey { x }
    } else if nn == 0x15 {
        Instruction::SetDelay { x }
    } else if nn == 0x18 {
        Instruction::SetSound { x }
    } else if nn == 0x1E {
        Instruction::AddIndex { x }
    } else if nn == 0x29 {
        Instruction::Glyph { x }
    } else if nn == 0x33 {
        Instruction::Bcd { x }
    } else if nn == 0x55 {
        Instruction::Store { x }
    } else if nn == 0x65 {
        Instruction::Load { x }
    } else {
        Instruction::Unknown { code }
    }
}

/// The instruction that an opcode stands for.
///
/// The top nibble selects the group. Groups 0, 8, E and F hold several
/// instructions and are told apart by their low bits; in every other group
/// the remaining nibbles are operands only. A pattern that no instruction
/// claims decodes to `Unknown`.
pub open spec fn decode_spec(code: u16) -> Instruction {
    let g = op_group(code);
    let x = op_x(code) as usize;
    let y = op_y(code) as usize;
    let nn = op_nn(code) as u8;
    let nnn = op_nnn(code);
    if g == 0x0 {
        if op_nn(code) == 0xE0 {
            Instruction::ClearScreen
        } else if op_nn(code) == 0xEE {
            Instruction::Return
        } else {
            Instruction::Unknown { code }
        }
    } else if g == 0x1 {
        Instruction::Jump { nnn }
    } else if g == 0x2 {
        Instruction::Call { nnn }
    } else if g == 0x3 {
        Instruction::SkipEqImm { x, nn }
    } else if g == 0x4 {
        Instruction::SkipNeImm { x, nn }
    } else if g == 0x5 {
        Instruction::SkipEqReg { x, y }
    } else if g == 0x6 {
        Instruction::LoadImm { x, nn }
    } else if g == 0x7 {
        Instruction::AddImm { x, nn }
    } else if g == 0x8 {
        decode_alu(code)
    } else if g == 0x9 {
        Instruction::SkipNeReg { x, y }
    } else if g == 0xA {
        Instruction::LoadIndex { nnn }
    } else if g == 0xB {
        Instruction::JumpOffset { nnn }
    } else if g == 0xC {
        Instruction::Random { x, nn }
    } else if g == 0xD {
        Instruction::Draw { x, y, n: op_n(code) as usize }
    } else if g == 0xE {
        if op_nn(code) == 0x9E {
            Instruction::SkipKeyDown { x }
        } else if op_nn(code) == 0xA1 {
            Instruction::SkipKeyUp { x }
        } else {
            Instruction::Unknown { code }
        }
    } else {
        decode_misc(code)
    }
}

/// Decodes one opcode.
pub fn decode(code: u16) -> (ins: Instruction)
    ensures
        ins == decode_spec(code),
        ins.wf(),
{
    let x: usize = ux(code);
    let y: usize = uy(code);
    let low: u16 = nn(code);
    let imm: u8 = low as u8;
    let addr: u16 = nnn(code);
    match group(code) {
        0x0 => match low {
            0xE0 => Instruction::ClearScreen,
            0xEE => Instruction::Return,
            _ => Instruction::Unknown { code },
        },
        0x1 => Instruction::Jump { nnn: addr },
        0x2 => Instruction::Call { nnn: addr },
        0x3 => Instruction::SkipEqImm { x, nn: imm },
        0x4 => Instruction::SkipNeImm { x, nn: imm },
        0x5 => Instruction::SkipEqReg { x, y },
        0x6 => Instruction::LoadImm { x, nn: imm },
        0x7 => Instruction::AddImm { x, nn: imm },
        0x8 => match n(code) {
            0x0 => Instruction::Move { x, y },
            0x1 => Instruction::Or { x, y },
            0x2 => Instruction::And { x, y },
            0x3 => Instruction::Xor { x, y },
            0x4 => Instruction::Add { x, y },
            0x5 => Instruction::Sub { x, y },
            0x6 => Instruction::ShiftRight { x, y },
            0x7 => Instruction::SubFrom { x, y },
            0xE => Instruction::ShiftLeft { x, y },
            _ => Instruction::Unknown { code },
        },
        0x9 => Instruction::SkipNeReg { x, y },
        0xA => Instruction::LoadIndex { nnn: addr },
        0xB => Instruction::JumpOffset { nnn: addr },
        0xC => Instruction::Random { x, nn: imm },
        0xD => Instruction::Draw { x, y, n: us(n(code)) },
        0xE => match low {
            0x9E => Instruction::SkipKeyDown { x },
            0xA1 => Instruction::SkipKeyUp { x },
            _ => Instruction::Unknown { code },
        },
        _ => match low {
            0x07 => Instruction::ReadDelay { x },
            0x0A => Instruction::WaitKey { x },
            0x15 => Instruction::SetDelay { x },
            0x18 => Instruction::SetSound { x },
            0x1E => Instruction::AddIndex { x },
            0x29 => Instruction::Glyph { x },
            0x33 => Instruction::Bcd { x },
            0x55 => Instruction::Store { x },
            0x65 => Instruction::Load { x },
            _ => Instruction::Unknown { code },
        },
    }
}

} // verus!
