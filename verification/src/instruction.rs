use vstd::prelude::*;

verus! {

/// One decoded instruction. `x` and `y` name registers, `byte` is the low
/// byte of the instruction word and `address` its low twelve bits.
#[derive(Clone, Copy, Debug, PartialEq, Eq, Structural)]
pub enum Instruction {
    /// `00E0`: turn every pixel off.
    ClearScreen,
    /// `00EE`: return from a subroutine.
    Return,
    /// `1nnn`: continue at `address`.
    Jump { address: u16 },
    /// `2nnn`: call the subroutine at `address`.
    Call { address: u16 },
    /// `3xkk`: skip the next instruction if `Vx` equals `byte`.
    SkipIfByte { x: u8, byte: u8 },
    /// `4xkk`: skip the next instruction if `Vx` differs from `byte`.
    SkipUnlessByte { x: u8, byte: u8 },
    /// `5xy0`: skip the next instruction if `Vx` equals `Vy`.
    SkipIfEqual { x: u8, y: u8 },
    /// `6xkk`: `Vx = byte`.
    LoadByte { x: u8, byte: u8 },
    /// `7xkk`: `Vx = Vx + byte`, wrapping, the flag register untouched.
    AddByte { x: u8, byte: u8 },
    /// `8xy0`: `Vx = Vy`.
    Assign { x: u8, y: u8 },
    /// `8xy1`: `Vx = Vx OR Vy`.
    Or { x: u8, y: u8 },
    /// `8xy2`: `Vx = Vx AND Vy`.
    And { x: u8, y: u8 },
    /// `8xy3`: `Vx = Vx XOR Vy`.
    Xor { x: u8, y: u8 },
    /// `8xy4`: `Vx = Vx + Vy`, wrapping; the flag register gets the carry.
    Add { x: u8, y: u8 },
    /// `8xy5`: `Vx = Vx - Vy`, wrapping; the flag register gets 1 when
    /// nothing was borrowed.
    Sub { x: u8, y: u8 },
    /// `8xy6`: the flag register gets the lowest bit of `Vx`, then `Vx` is
    /// shifted right by one.
    ShiftRight { x: u8 },
    /// `8xy7`: `Vx = Vy - Vx`, wrapping; the flag register gets 1 when
    /// nothing was borrowed.
    SubFrom { x: u8, y: u8 },
    /// `8xyE`: the flag register gets the highest bit of `Vx`, then `Vx` is
    /// shifted left by one.
    ShiftLeft { x: u8 },
    /// `9xy0`: skip the next instruction if `Vx` differs from `Vy`.
    SkipUnlessEqual { x: u8, y: u8 },
    /// `Annn`: `I = address`.
    LoadIndex { address: u16 },
    /// `Bnnn`: continue at `address + V0`.
    JumpOffset { address: u16 },
    /// `Cxkk`: `Vx = random byte AND byte`.
    Random { x: u8, byte: u8 },
    /// `Dxyn`: draw the `height` rows stored at `I` at column `Vx`, row `Vy`;
    /// the flag register tells whether a pixel was turned off.
    Draw { x: u8, y: u8, height: u8 },
    /// `Ex9E`: skip the next instruction if the key numbered `Vx` is down.
    SkipIfKey { x: u8 },
    /// `ExA1`: skip the next instruction if the key numbered `Vx` is up.
    SkipUnlessKey { x: u8 },
    /// `Fx07`: `Vx = delay timer`.
    ReadDelay { x: u8 },
    /// `Fx0A`: `Vx` gets the lowest key that is down; while none is, the
    /// instruction is run again.
    WaitKey { x: u8 },
    /// `Fx15`: `delay timer = Vx`.
    SetDelay { x: u8 },
    /// `Fx18`: `sound timer = Vx`.
    SetSound { x: u8 },
    /// `Fx1E`: `I = I + Vx`, wrapping at sixteen bits.
    AddIndex { x: u8 },
    /// `Fx29`: `I` gets the address of the glyph for `Vx`.
    LoadGlyph { x: u8 },
    /// `Fx33`: the three decimal digits of `Vx` are stored at `I`, `I + 1`
    /// and `I + 2`.
    StoreDigits { x: u8 },
    /// `Fx55`: `V0` to `Vx` are stored from `I` on.
    StoreRegisters { x: u8 },
    /// `Fx65`: `V0` to `Vx` are read from `I` on.
    LoadRegisters { x: u8 },
    /// Any other instruction word.
    Unknown { opcode: u16 },
}

impl Instruction {
    /// Whether every operand is one that an instruction word can hold:
    /// register numbers and heights below sixteen, addresses below 4096.
    pub open spec fn well_formed(self) -> bool {
        match self {
            Instruction::ClearScreen | Instruction::Return | Instruction::Unknown { .. } => true,
            Instruction::Jump { address }
            | Instruction::Call { address }
            | Instruction::LoadIndex { address }
            | Instruction::JumpOffset { address } => address < 4096,
            Instruction::SkipIfByte { x, .. }
            | Instruction::SkipUnlessByte { x, .. }
            | Instruction::LoadByte { x, .. }
            | Instruction::AddByte { x, .. }
            | Instruction::Random { x, .. }
            | Instruction::ShiftRight { x }
            | Instruction::ShiftLeft { x }
            | Instruction::SkipIfKey { x }
            | Instruction::SkipUnlessKey { x }
            | Instruction::ReadDelay { x }
            | Instruction::WaitKey { x }
            | Instruction::SetDelay { x }
            | Instruction::SetSound { x }
            | Instruction::AddIndex { x }
            | Instruction::LoadGlyph { x }
            | Instruction::StoreDigits { x }
            | Instruction::StoreRegisters { x }
            | Instruction::LoadRegisters { x } => x < 16,
            Instruction::SkipIfEqual { x, y }
            | Instruction::Assign { x, y }
            | Instruction::Or { x, y }
            | Instruction::And { x, y }
            | Instruction::Xor { x, y }
            | Instruction::Add { x, y }
            | Instruction::Sub { x, y }
            | Instruction::SubFrom { x, y }
            | Instruction::SkipUnlessEqual { x, y } => x < 16 && y < 16,
            Instruction::Draw { x, y, height } => x < 16 && y < 16 && height < 16,
        }
    }
}

/// The instruction that the word `opcode` stands for. With the four hex
/// digits of the word written `d1 x y n`, `kk` is its low byte and `nnn` its
/// low twelve bits.
pub open spec fn decoded(opcode: u16) -> Instruction {
    let d1 = opcode as int / 4096;
    let x = ((opcode as int / 256) % 16) as u8;
    let y = ((opcode as int / 16) % 16) as u8;
    let n = (opcode as int % 16) as u8;
    let kk = (opcode as int % 256) as u8;
    let nnn = (opcode as int % 4096) as u16;
    if opcode == 0x00E0 {
        Instruction::ClearScreen
    } else if opcode == 0x00EE {
        Instruction::Return
    } else if d1 == 0x1 {
        Instruction::Jump { address: nnn }
    } else if d1 == 0x2 {
        Instruction::Call { address: nnn }
    } else if d1 == 0x3 {
        Instruction::SkipIfByte { x, byte: kk }
    } else if d1 == 0x4 {
        Instruction::SkipUnlessByte { x, byte: kk }
    } else if d1 == 0x5 && n == 0x0 {
        Instruction::SkipIfEqual { x, y }
    } else if d1 == 0x6 {
        Instruction::LoadByte { x, byte: kk }
    } else if d1 == 0x7 {
        Instruction::AddByte { x, byte: kk }
    } else if d1 == 0x8 && n == 0x0 {
        Instruction::Assign { x, y }
    } else if d1 == 0x8 && n == 0x1 {
        Instruction::Or { x, y }
    } else if d1 == 0x8 && n == 0x2 {
        Instruction::And { x, y }
    } else if d1 == 0x8 && n == 0x3 {
        Instruction::Xor { x, y }
    } else if d1 == 0x8 && n == 0x4 {
        Instruction::Add { x, y }
    } else if d1 == 0x8 && n == 0x5 {
        Instruction::Sub { x, y }
    } else if d1 == 0x8 && n == 0x6 {
        Instruction::ShiftRight { x }
    } else if d1 == 0x8 && n == 0x7 {
        Instruction::SubFrom { x, y }
    } else if d1 == 0x8 && n == 0xE {
        Instruction::ShiftLeft { x }
    } else if d1 == 0x9 && n == 0x0 {
        Instruction::SkipUnlessEqual { x, y }
    } else if d1 == 0xA {
        Instruction::LoadIndex { address: nnn }
    } else if d1 == 0xB {
        Instruction::JumpOffset { address: nnn }
    } else if d1 == 0xC {
        Instruction::Random { x, byte: kk }
    } else if d1 == 0xD {
        Instruction::Draw { x, y, height: n }
    } else if d1 == 0xE && kk == 0x9E {
        Instruction::SkipIfKey { x }
    } else if d1 == 0xE && kk == 0xA1 {
        Instruction::SkipUnlessKey { x }
    } else if d1 == 0xF && kk == 0x07 {
        Instruction::ReadDelay { x }
    } else if d1 == 0xF && kk == 0x0A {
        Instruction::WaitKey { x }
    } else if d1 == 0xF && kk == 0x15 {
        Instruction::SetDelay { x }
    } else if d1 == 0xF && kk == 0x18 {
        Instruction::SetSound { x }
    } else if d1 == 0xF && kk == 0x1E {
        Instruction::AddIndex { x }
    } else if d1 == 0xF && kk == 0x29 {
        Instruction::LoadGlyph { x }
    } else if d1 == 0xF && kk == 0x33 {
        Instruction::StoreDigits { x }
    } else if d1 == 0xF && kk == 0x55 {
        Instruction::StoreRegisters { x }
    } else if d1 == 0xF && kk == 0x65 {
        Instruction::LoadRegisters { x }
    } else {
        Instruction::Unknown { opcode }
    }
}

/// Splits an instruction word into its four hex digits and picks the
/// instruction they stand for.
pub fn decode(opcode: u16) -> (instr: Instruction)
    ensures
        instr == decoded(opcode),
        instr.well_formed(),
{
    let digit1 = (opcode & 0xF000) >> 12;
    let digit2 = (opcode & 0x0F00) >> 8;
    let digit3 = (opcode & 0x00F0) >> 4;
    let digit4 = opcode & 0x000F;
    let low_byte = opcode & 0x00FF;
    let address = opcode & 0x0FFF;
    assert(digit1 == opcode / 4096 && digit1 < 16) by (bit_vector)
        requires
            digit1 == (opcode & 0xF000) >> 12,
    ;
    assert(digit2 == (opcode / 256) % 16 && digit2 < 16) by (bit_vector)
        requires
            digit2 == (opcode & 0x0F00) >> 8,
    ;
    assert(digit3 == (opcode / 16) % 16 && digit3 < 16) by (bit_vector)
        requires
            digit3 == (opcode & 0x00F0) >> 4,
    ;
    assert(digit4 == opcode % 16 && digit4 < 16) by (bit_vector)
        requires
            digit4 == opcode & 0x000F,
    ;
    assert(low_byte == opcode % 256 && low_byte == digit3 * 16 + digit4) by (bit_vector)
        requires
            low_byte == opcode & 0x00FF,
            digit3 == (opcode & 0x00F0) >> 4,
            digit4 == opcode & 0x000F,
    ;
    assert(address == opcode % 4096 && opcode == digit1 * 4096 + address && address == digit2 * 256
        + low_byte) by (bit_vector)
        requires
            address == opcode & 0x0FFF,
            digit1 == (opcode & 0xF000) >> 12,
            digit2 == (opcode & 0x0F00) >> 8,
            low_byte == opcode & 0x00FF,
    ;
    let x = digit2 as u8;
    let y = digit3 as u8;
    let n = digit4 as u8;
    let kk = low_byte as u8;
    match (digit1, digit2, digit3, digit4) {
        (0, 0, 0xE, 0) => Instruction::ClearScreen,
        (0, 0, 0xE, 0xE) => Instruction::Return,
        (1, _, _, _) => Instruction::Jump { address },
        (2, _, _, _) => Instruction::Call { address },
        (3, _, _, _) => Instruction::SkipIfByte { x, byte: kk },
        (4, _, _, _) => Instruction::SkipUnlessByte { x, byte: kk },
        (5, _, _, 0) => Instruction::SkipIfEqual { x, y },
        (6, _, _, _) => Instruction::LoadByte { x, byte: kk },
        (7, _, _, _) => Instruction::AddByte { x, byte: kk },
        (8, _, _, 0) => Instruction::Assign { x, y },
        (8, _, _, 1) => Instruction::Or { x, y },
        (8, _, _, 2) => Instruction::And { x, y },
        (8, _, _, 3) => Instruction::Xor { x, y },
        (8, _, _, 4) => Instruction::Add { x, y },
        (8, _, _, 5) => Instruction::Sub { x, y },
        (8, _, _, 6) => Instruction::ShiftRight { x },
        (8, _, _, 7) => Instruction::SubFrom { x, y },
        (8, _, _, 0xE) => Instruction::ShiftLeft { x },
        (9, _, _, 0) => Instruction::SkipUnlessEqual { x, y },
        (0xA, _, _, _) => Instruction::LoadIndex { address },
        (0xB, _, _, _) => Instruction::JumpOffset { address },
        (0xC, _, _, _) => Instruction::Random { x, byte: kk },
        (0xD, _, _, _) => Instruction::Draw { x, y, height: n },
        (0xE, _, 9, 0xE) => Instruction::SkipIfKey { x },
        (0xE, _, 0xA, 1) => Instruction::SkipUnlessKey { x },
        (0xF, _, 0, 7) => Instruction::ReadDelay { x },
        (0xF, _, 0, 0xA) => Instruction::WaitKey { x },
        (0xF, _, 1, 5) => Instruction::SetDelay { x },
        (0xF, _, 1, 8) => Instruction::SetSound { x },
        (0xF, _, 1, 0xE) => Instruction::AddIndex { x },
        (0xF, _, 2, 9) => Instruction::LoadGlyph { x },
        (0xF, _, 3, 3) => Instruction::StoreDigits { x },
        (0xF, _, 5, 5) => Instruction::StoreRegisters { x },
        (0xF, _, 6, 5) => Instruction::LoadRegisters { x },
        (_, _, _, _) => Instruction::Unknown { opcode },
    }
}

} // verus!
