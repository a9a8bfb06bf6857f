//! Decoding of 16-bit instruction words into structured opcodes.
//!
//! Decoding is a pure function of the instruction word alone: it inspects the
//! top nibble first and, for the ambiguous groups (`0x0`, `0x8`, `0xE`, `0xF`),
//! dispatches a second time on the low byte or low nibble.  A word that matches
//! no known operation decodes to the explicit `Unknown` variant carrying the
//! raw word; no word is ever dropped silently.

use vstd::prelude::*;

verus! {

/// A decoded instruction.  Each variant carries only the operand fields the
/// operation needs: a register index `x` or `y` (0–15), a 4-bit immediate
/// `nibble`, an 8-bit immediate `value`/`mask`, or a 12-bit `address`.
#[derive(Clone, Copy, Debug, PartialEq, Eq, Structural)]
pub enum Instruction {
    /// `00E0`: zero every framebuffer cell.
    ClearScreen,
    /// `00EE`: pop the call stack into the program counter.
    Return,
    /// `1NNN`: set the program counter to `address`.
    Jump { address: u16 },
    /// `2NNN`: push the return address, then jump to `address`.
    Call { address: u16 },
    /// `3XNN`: skip the next instruction if `Vx == value`.
    SkipIfEqualByte { x: u8, value: u8 },
    /// `4XNN`: skip the next instruction if `Vx != value`.
    SkipIfNotEqualByte { x: u8, value: u8 },
    /// `5XY_`: skip the next instruction if `Vx == Vy`.
    SkipIfEqualRegister { x: u8, y: u8 },
    /// `6XNN`: `Vx = value`.
    SetRegister { x: u8, value: u8 },
    /// `7XNN`: `Vx += value`, 8-bit wraparound, no flag.
    AddRegister { x: u8, value: u8 },
    /// `8XY0`: `Vx = Vy`.
    CopyRegister { x: u8, y: u8 },
    /// `8XY1`: `Vx |= Vy`.
    OrRegister { x: u8, y: u8 },
    /// `8XY2`: `Vx &= Vy`.
    AndRegister { x: u8, y: u8 },
    /// `8XY3`: `Vx ^= Vy`.
    XorRegister { x: u8, y: u8 },
    /// `8XY4`: `Vx += Vy` with carry into `VF`.
    AddWithCarry { x: u8, y: u8 },
    /// `8XY5`: `Vx -= Vy`; `VF = 1` iff no borrow occurred.
    SubWithBorrow { x: u8, y: u8 },
    /// `8XY6`: shift `Vx` right by one; `VF` receives the low bit.
    ShiftRight { x: u8 },
    /// `8XY7`: `Vx = Vy - Vx`; `VF = 1` iff no borrow occurred.
    SubFrom { x: u8, y: u8 },
    /// `8XYE`: shift `Vx` left by one; `VF` receives the high bit.
    ShiftLeft { x: u8 },
    /// `9XY_`: skip the next instruction if `Vx != Vy`.
    SkipIfNotEqualRegister { x: u8, y: u8 },
    /// `ANNN`: set the index register to `address`.
    SetIRegister { address: u16 },
    /// `BNNN`: jump to `address + V0`.
    JumpWithOffset { address: u16 },
    /// `CXNN`: `Vx = random byte & mask`.
    Random { x: u8, mask: u8 },
    /// `DXYN`: XOR-blit an 8-bit-wide, `nibble`-row sprite at `(Vx, Vy)`.
    Draw { x: u8, y: u8, nibble: u8 },
    /// `EX9E`: skip the next instruction if the key indexed by `Vx` is held.
    SkipIfKeyPressed { x: u8 },
    /// `EXA1`: skip the next instruction if the key indexed by `Vx` is not held.
    SkipIfKeyNotPressed { x: u8 },
    /// `FX07`: `Vx = delay timer`.
    ReadDelayTimer { x: u8 },
    /// `FX0A`: suspend execution until a key is pressed; its index goes to `Vx`.
    WaitForKey { x: u8 },
    /// `FX15`: `delay timer = Vx`.
    SetDelayTimer { x: u8 },
    /// `FX18`: `sound timer = Vx`.
    SetSoundTimer { x: u8 },
    /// `FX1E`: `I += Vx`, 16-bit wraparound.
    AddIRegister { x: u8 },
    /// `FX29`: `I = ` address of the built-in glyph for the low nibble of `Vx`.
    SetGlyphIndex { x: u8 },
    /// `FX33`: write the decimal digits of `Vx` to `I, I+1, I+2`.
    StoreBcd { x: u8 },
    /// `FX55`: write `V0..=Vx` to memory starting at `I`.
    StoreRegisters { x: u8 },
    /// `FX65`: load `V0..=Vx` from memory starting at `I`.
    LoadRegisters { x: u8 },
    /// Any word that matches no known operation, kept verbatim.
    Unknown { word: u16 },
}

/// The top nibble of an instruction word: its primary dispatch group.
pub open spec fn group_of(word: u16) -> u16 {
    (word >> 12) & 0xF
}

/// The second nibble: the register index `x`.
pub open spec fn x_of(word: u16) -> u8 {
    ((word >> 8) & 0xF) as u8
}

/// The third nibble: the register index `y`.
pub open spec fn y_of(word: u16) -> u8 {
    ((word >> 4) & 0xF) as u8
}

/// The low nibble: the 4-bit immediate `n`.
pub open spec fn n_of(word: u16) -> u8 {
    (word & 0xF) as u8
}

/// The low byte: the 8-bit immediate `nn`.
pub open spec fn nn_of(word: u16) -> u8 {
    (word & 0xFF) as u8
}

/// The low 12 bits: the address immediate `nnn`.
pub open spec fn nnn_of(word: u16) -> u16 {
    word & 0xFFF
}

/// The decoding table as a mathematical function: what every 16-bit word means.
pub open spec fn spec_decode(word: u16) -> Instruction {
    let x = x_of(word);
    let y = y_of(word);
    let n = n_of(word);
    let nn = nn_of(word);
    let nnn = nnn_of(word);
    if word == 0x00E0 {
        Instruction::ClearScreen
    } else if word == 0x00EE {
        Instruction::Return
    } else if group_of(word) == 0x1 {
        Instruction::Jump { address: nnn }
    } else if group_of(word) == 0x2 {
        Instruction::Call { address: nnn }
    } else if group_of(word) == 0x3 {
        Instruction::SkipIfEqualByte { x, value: nn }
    } else if group_of(word) == 0x4 {
        Instruction::SkipIfNotEqualByte { x, value: nn }
    } else if group_of(word) == 0x5 {
        Instruction::SkipIfEqualRegister { x, y }
    } else if group_of(word) == 0x6 {
        Instruction::SetRegister { x, value: nn }
    } else if group_of(word) == 0x7 {
        Instruction::AddRegister { x, value: nn }
    } else if group_of(word) == 0x8 {
        if n == 0x0 {
            Instruction::CopyRegister { x, y }
        } else if n == 0x1 {
            Instruction::OrRegister { x, y }
        } else if n == 0x2 {
            Instruction::AndRegister { x, y }
        } else if n == 0x3 {
            Instruction::XorRegister { x, y }
        } else if n == 0x4 {
            Instruction::AddWithCarry { x, y }
        } else if n == 0x5 {
            Instruction::SubWithBorrow { x, y }
        } else if n == 0x6 {
            Instruction::ShiftRight { x }
        } else if n == 0x7 {
            Instruction::SubFrom { x, y }
        } else if n == 0xE {
            Instruction::ShiftLeft { x }
        } else {
            Instruction::Unknown { word }
        }
    } else if group_of(word) == 0x9 {
        Instruction::SkipIfNotEqualRegister { x, y }
    } else if group_of(word) == 0xA {
        Instruction::SetIRegister { address: nnn }
    } else if group_of(word) == 0xB {
        Instruction::JumpWithOffset { address: nnn }
    } else if group_of(word) == 0xC {
        Instruction::Random { x, mask: nn }
    } else if group_of(word) == 0xD {
        Instruction::Draw { x, y, nibble: n }
    } else if group_of(word) == 0xE {
        if nn == 0x9E {
            Instruction::SkipIfKeyPressed { x }
        } else if nn == 0xA1 {
            Instruction::SkipIfKeyNotPressed { x }
        } else {
            Instruction::Unknown { word }
        }
    } else if group_of(word) == 0xF {
        if nn == 0x07 {
            Instruction::ReadDelayTimer { x }
        } else if nn == 0x0A {
            Instruction::WaitForKey { x }
        } else if nn == 0x15 {
            Instruction::SetDelayTimer { x }
        } else if nn == 0x18 {
            Instruction::SetSoundTimer { x }
        } else if nn == 0x1E {
            Instruction::AddIRegister { x }
        } else if nn == 0x29 {
            Instruction::SetGlyphIndex { x }
        } else if nn == 0x33 {
            Instruction::StoreBcd { x }
        } else if nn == 0x55 {
            Instruction::StoreRegisters { x }
        } else if nn == 0x65 {
            Instruction::LoadRegisters { x }
        } else {
            Instruction::Unknown { word }
        }
    } else {
        Instruction::Unknown { word }
    }
}

impl Instruction {
    /// Every operand field is within the range its width allows: register
    /// indices and 4-bit immediates below 16, addresses below 0x1000.
    pub open spec fn wf(self) -> bool {
        match self {
            Instruction::ClearScreen => true,
            Instruction::Return => true,
            Instruction::Jump { address } => address < 0x1000,
            Instruction::Call { address } => address < 0x1000,
            Instruction::SkipIfEqualByte { x, value } => x < 16,
            Instruction::SkipIfNotEqualByte { x, value } => x < 16,
            Instruction::SkipIfEqualRegister { x, y } => x < 16 && y < 16,
            Instruction::SetRegister { x, value } => x < 16,
            Instruction::AddRegister { x, value } => x < 16,
            Instruction::CopyRegister { x, y } => x < 16 && y < 16,
            Instruction::OrRegister { x, y } => x < 16 && y < 16,
            Instruction::AndRegister { x, y } => x < 16 && y < 16,
            Instruction::XorRegister { x, y } => x < 16 && y < 16,
            Instruction::AddWithCarry { x, y } => x < 16 && y < 16,
            Instruction::SubWithBorrow { x, y } => x < 16 && y < 16,
            Instruction::ShiftRight { x } => x < 16,
            Instruction::SubFrom { x, y } => x < 16 && y < 16,
            Instruction::ShiftLeft { x } => x < 16,
            Instruction::SkipIfNotEqualRegister { x, y } => x < 16 && y < 16,
            Instruction::SetIRegister { address } => address < 0x1000,
            Instruction::JumpWithOffset { address } => address < 0x1000,
            Instruction::Random { x, mask } => x < 16,
            Instruction::Draw { x, y, nibble } => x < 16 && y < 16 && nibble < 16,
            Instruction::SkipIfKeyPressed { x } => x < 16,
            Instruction::SkipIfKeyNotPressed { x } => x < 16,
            Instruction::ReadDelayTimer { x } => x < 16,
            Instruction::WaitForKey { x } => x < 16,
            Instruction::SetDelayTimer { x } => x < 16,
            Instruction::SetSoundTimer { x } => x < 16,
            Instruction::AddIRegister { x } => x < 16,
            Instruction::SetGlyphIndex { x } => x < 16,
            Instruction::StoreBcd { x } => x < 16,
            Instruction::StoreRegisters { x } => x < 16,
            Instruction::LoadRegisters { x } => x < 16,
            Instruction::Unknown { word } => true,
        }
    }

    /// Decode one big-endian instruction word.  Total: every word yields a
    /// variant, never a panic; a word outside the table yields `Unknown`.
    pub fn from_u16(word: u16) -> (instr: Instruction)
        ensures
            instr == spec_decode(word),
    {
        let x: u8 = ((word >> 8) & 0xF) as u8;
        let y: u8 = ((word >> 4) & 0xF) as u8;
        let n: u8 = (word & 0xF) as u8;
        let nn: u8 = (word & 0xFF) as u8;
        let nnn: u16 = word & 0xFFF;
        if word == 0x00E0 {
            Instruction::ClearScreen
        } else if word == 0x00EE {
            Instruction::Return
        } else {
            match (word >> 12) & 0xF {
                0x1 => Instruction::Jump { address: nnn },
                0x2 => Instruction::Call { address: nnn },
                0x3 => Instruction::SkipIfEqualByte { x, value: nn },
                0x4 => Instruction::SkipIfNotEqualByte { x, value: nn },
                0x5 => Instruction::SkipIfEqualRegister { x, y },
                0x6 => Instruction::SetRegister { x, value: nn },
                0x7 => Instruction::AddRegister { x, value: nn },
                0x8 => match n {
                    0x0 => Instruction::CopyRegister { x, y },
                    0x1 => Instruction::OrRegister { x, y },
                    0x2 => Instruction::AndRegister { x, y },
                    0x3 => Instruction::XorRegister { x, y },
                    0x4 => Instruction::AddWithCarry { x, y },
                    0x5 => Instruction::SubWithBorrow { x, y },
                    0x6 => Instruction::ShiftRight { x },
                    0x7 => Instruction::SubFrom { x, y },
                    0xE => Instruction::ShiftLeft { x },
                    _ => Instruction::Unknown { word },
                },
                0x9 => Instruction::SkipIfNotEqualRegister { x, y },
                0xA => Instruction::SetIRegister { address: nnn },
                0xB => Instruction::JumpWithOffset { address: nnn },
                0xC => Instruction::Random { x, mask: nn },
                0xD => Instruction::Draw { x, y, nibble: n },
                0xE => match nn {
                    0x9E => Instruction::SkipIfKeyPressed { x },
                    0xA1 => Instruction::SkipIfKeyNotPressed { x },
                    _ => Instruction::Unknown { word },
                },
                0xF => match nn {
                    0x07 => Instruction::ReadDelayTimer { x },
                    0x0A => Instruction::WaitForKey { x },
                    0x15 => Instruction::SetDelayTimer { x },
                    0x18 => Instruction::SetSoundTimer { x },
                    0x1E => Instruction::AddIRegister { x },
                    0x29 => Instruction::SetGlyphIndex { x },
                    0x33 => Instruction::StoreBcd { x },
                    0x55 => Instruction::StoreRegisters { x },
                    0x65 => Instruction::LoadRegisters { x },
                    _ => Instruction::Unknown { word },
                },
                _ => Instruction::Unknown { word },
            }
        }
    }
}

/// The ranges of the operand fields, for every word.
pub proof fn lemma_fields_bounded(word: u16)
    ensures
        group_of(word) < 16,
        x_of(word) < 16,
        y_of(word) < 16,
        n_of(word) < 16,
        nnn_of(word) < 0x1000,
{
    assert((word >> 12) & 0xF < 16 && (word >> 8) & 0xF < 16 && (word >> 4) & 0xF < 16 && word
        & 0xF < 16 && word & 0xFFF < 0x1000) by (bit_vector);
}

/// Every decoded instruction is well formed: its operand fields are in range.
pub proof fn lemma_decode_wf(word: u16)
    ensures
        spec_decode(word).wf(),
{
    lemma_fields_bounded(word);
}

/// Decoding is deterministic: equal words always decode to equal instructions.
pub proof fn lemma_decode_deterministic(a: u16, b: u16)
    requires
        a == b,
    ensures
        spec_decode(a) == spec_decode(b),
{
}

} // verus!
