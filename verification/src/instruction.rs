//! Instruction words and what they decode to.

use vstd::prelude::*;
use crate::alu::{alu_spec, AluOp};
use crate::error::Chip8Error;

verus! {

/// One decoded operation with its operands.
///
/// `x` and `y` are register indices, `byte` is a literal, `addr` a 12-bit
/// address and `rows` a sprite height.
#[derive(Clone, Copy, Debug, PartialEq, Eq, Structural)]
pub enum Instruction {
    /// `0000`: no effect.
    Nop,
    /// `00E0`: turn every pixel off.
    ClearScreen,
    /// `00EE`: return from a subroutine.
    Return,
    /// `1nnn`: continue at `addr`.
    Jump { addr: u16 },
    /// `2nnn`: call the subroutine at `addr`.
    Call { addr: u16 },
    /// `3xkk`: skip the next instruction if `Vx == byte`.
    SkipIfEqual { x: usize, byte: u8 },
    /// `4xkk`: skip the next instruction if `Vx != byte`.
    SkipIfNotEqual { x: usize, byte: u8 },
    /// `5xy0`: skip the next instruction if `Vx == Vy`.
    SkipIfRegistersEqual { x: usize, y: usize },
    /// `6xkk`: `Vx = byte`.
    Load { x: usize, byte: u8 },
    /// `7xkk`: `Vx = Vx + byte`, wrapping, no flag.
    AddByte { x: usize, byte: u8 },
    /// `8xy0` to `8xy8`: a register-to-register operation.
    Alu { op: AluOp, x: usize, y: usize },
    /// `9xy0`: skip the next instruction if `Vx != Vy`.
    SkipIfRegistersDiffer { x: usize, y: usize },
    /// `Annn`: `I = addr`.
    LoadIndex { addr: u16 },
    /// `Bnnn`: continue at `addr + V0`.
    JumpOffset { addr: u16 },
    /// `Cxkk`: `Vx = random byte & byte`.
    Random { x: usize, byte: u8 },
    /// `Dxyn`: draw the `rows`-row sprite at `I` to column `Vx`, row `Vy`.
    Draw { x: usize, y: usize, rows: u8 },
    /// `Ex9E`: skip the next instruction if the key `Vx` is down.
    SkipIfKeyPressed { x: usize },
    /// `ExA1`: skip the next instruction if the key `Vx` is up.
    SkipIfKeyReleased { x: usize },
    /// `Fx07`: `Vx = delay timer`.
    ReadDelay { x: usize },
    /// `Fx0A`: wait until a key is down and store its index in `Vx`.
    WaitKey { x: usize },
    /// `Fx15`: `delay timer = Vx`.
    SetDelay { x: usize },
    /// `Fx18`: `sound timer = Vx`.
    SetSound { x: usize },
    /// `Fx1E`: `I = I + Vx`, wrapping, no flag.
    AddIndex { x: usize },
    /// `Fx29`: `I` = address of the glyph for the value of `Vx`.
    Glyph { x: usize },
    /// `Fx33`: store the decimal digits of `Vx` at `I`, `I + 1`, `I + 2`.
    StoreDecimal { x: usize },
    /// `Fx55`: store `V0..=Vx` in memory from `I` on.
    StoreRegisters { x: usize },
    /// `Fx65`: load `V0..=Vx` from memory from `I` on.
    LoadRegisters { x: usize },
}

impl Instruction {
    /// The operands lie within what an instruction word can encode: register
    /// indices and sprite heights below 16, addresses below 4096.
    pub open spec fn valid(self) -> bool {
        match self {
            Instruction::Nop | Instruction::ClearScreen | Instruction::Return => true,
            Instruction::Jump { addr }
            | Instruction::Call { addr }
            | Instruction::LoadIndex { addr }
            | Instruction::JumpOffset { addr } => addr < 0x1000,
            Instruction::SkipIfEqual { x, .. }
            | Instruction::SkipIfNotEqual { x, .. }
            | Instruction::Load { x, .. }
            | Instruction::AddByte { x, .. }
            | Instruction::Random { x, .. }
            | Instruction::SkipIfKeyPressed { x }
            | Instruction::SkipIfKeyReleased { x }
            | Instruction::ReadDelay { x }
            | Instruction::WaitKey { x }
            | Instruction::SetDelay { x }
            | Instruction::SetSound { x }
            | Instruction::AddIndex { x }
            | Instruction::Glyph { x }
            | Instruction::StoreDecimal { x }
            | Instruction::StoreRegisters { x }
            | Instruction::LoadRegisters { x } => x < 16,
            Instruction::SkipIfRegistersEqual { x, y }
            | Instruction::Alu { x, y, .. }
            | Instruction::SkipIfRegistersDiffer { x, y } => x < 16 && y < 16,
            Instruction::Draw { x, y, rows } => x < 16 && y < 16 && rows < 16,
        }
    }

    /// Whether the instruction defines a flag: the arithmetic and shift
    /// operations and the sprite draw do, nothing else does.
    pub open spec fn defines_flag(self) -> bool {
        match self {
            Instruction::Alu { op, .. } => alu_spec(op, 0, 0).1 is Some,
            Instruction::Draw { .. } => true,
            _ => false,
        }
    }

    /// Whether the register `reg` is one that the instruction names as the
    /// target of its result.
    pub open spec fn targets(self, reg: int) -> bool {
        match self {
            Instruction::Load { x, .. }
            | Instruction::AddByte { x, .. }
            | Instruction::Alu { x, .. }
            | Instruction::Random { x, .. }
            | Instruction::ReadDelay { x }
            | Instruction::WaitKey { x } => reg == x,
            Instruction::LoadRegisters { x } => 0 <= reg <= x,
            _ => false,
        }
    }

    /// Whether the instruction is one of the two that store to memory.
    pub open spec fn stores_to_memory(self) -> bool {
        self is StoreDecimal || self is StoreRegisters
    }

    /// Whether the instruction is one of the two that change the picture.
    pub open spec fn paints(self) -> bool {
        self is ClearScreen || self is Draw
    }

    /// Tells whether the operands lie within what an instruction word can
    /// encode.
    pub fn is_valid(&self) -> (b: bool)
        ensures
            b == self.valid(),
    {
        match *self {
            Instruction::Nop | Instruction::ClearScreen | Instruction::Return => true,
            Instruction::Jump { addr }
            | Instruction::Call { addr }
            | Instruction::LoadIndex { addr }
            | Instruction::JumpOffset { addr } => addr < 0x1000,
            Instruction::SkipIfEqual { x, .. }
            | Instruction::SkipIfNotEqual { x, .. }
            | Instruction::Load { x, .. }
            | Instruction::AddByte { x, .. }
            | Instruction::Random { x, .. }
            | Instruction::SkipIfKeyPressed { x }
            | Instruction::SkipIfKeyReleased { x }
            | Instruction::ReadDelay { x }
            | Instruction::WaitKey { x }
            | Instruction::SetDelay { x }
            | Instruction::SetSound { x }
            | Instruction::AddIndex { x }
            | Instruction::Glyph { x }
            | Instruction::StoreDecimal { x }
            | Instruction::StoreRegisters { x }
            | Instruction::LoadRegisters { x } => x < 16,
            Instruction::SkipIfRegistersEqual { x, y }
            | Instruction::Alu { x, y, .. }
            | Instruction::SkipIfRegistersDiffer { x, y } => x < 16 && y < 16,
            Instruction::Draw { x, y, rows } => x < 16 && y < 16 && rows < 16,
        }
    }
}

/// The four 4-bit fields of an instruction word, most significant first.
pub open spec fn nibbles_of(op: u16) -> (u8, u8, u8, u8) {
    ((op / 4096) as u8, ((op / 256) % 16) as u8, ((op / 16) % 16) as u8, (op % 16) as u8)
}

/// The register-to-register operation that the low nibble of an `8xy_` word
/// selects, if any.
pub open spec fn alu_op_of(low: u8) -> Option<AluOp> {
    if low == 0 {
        Some(AluOp::Move)
    } else if low == 1 {
        Some(AluOp::Or)
    } else if low == 2 {
        Some(AluOp::And)
    } else if low == 3 {
        Some(AluOp::Xor)
    } else if low == 4 {
        Some(AluOp::Add)
    } else if low == 5 {
        Some(AluOp::Sub)
    } else if low == 6 {
        Some(AluOp::ShiftRight)
    } else if low == 7 {
        Some(AluOp::SubReverse)
    } else if low == 8 {
        Some(AluOp::ShiftLeft)
    } else {
        None
    }
}

/// The instruction that a word encodes, or `None` where it encodes none.
///
/// The leading nibble selects the family. Within a family the second and
/// third nibble name the registers `x` and `y`, the low byte is the literal
/// and the low twelve bits are the address, as far as the family uses them.
/// The families `0`, `5`, `8`, `9`, `E` and `F` are told apart further by
/// their low nibble or low byte, which has to match exactly.
pub open spec fn decode_spec(op: u16) -> Option<Instruction> {
    let (family, n2, n3, n4) = nibbles_of(op);
    let x = n2 as usize;
    let y = n3 as usize;
    let byte = (op % 256) as u8;
    let addr = (op % 4096) as u16;
    if family == 0x0 {
        if op == 0x0000 {
            Some(Instruction::Nop)
        } else if op == 0x00E0 {
            Some(Instruction::ClearScreen)
        } else if op == 0x00EE {
            Some(Instruction::Return)
        } else {
            None
        }
    } else if family == 0x1 {
        Some(Instruction::Jump { addr })
    } else if family == 0x2 {
        Some(Instruction::Call { addr })
    } else if family == 0x3 {
        Some(Instruction::SkipIfEqual { x, byte })
    } else if family == 0x4 {
        Some(Instruction::SkipIfNotEqual { x, byte })
    } else if family == 0x5 {
        if n4 == 0 {
            Some(Instruction::SkipIfRegistersEqual { x, y })
        } else {
            None
        }
    } else if family == 0x6 {
        Some(Instruction::Load { x, byte })
    } else if family == 0x7 {
        Some(Instruction::AddByte { x, byte })
    } else if family == 0x8 {
        match alu_op_of(n4) {
            Some(op) => Some(Instruction::Alu { op, x, y }),
            None => None,
        }
    } else if family == 0x9 {
        if n4 == 0 {
            Some(Instruction::SkipIfRegistersDiffer { x, y })
        } else {
            None
        }
    } else if family == 0xA {
        Some(Instruction::LoadIndex { addr })
    } else if family == 0xB {
        Some(Instruction::JumpOffset { addr })
    } else if family == 0xC {
        Some(Instruction::Random { x, byte })
    } else if family == 0xD {
        Some(Instruction::Draw { x, y, rows: n4 })
    } else if family == 0xE {
        if byte == 0x9E {
            Some(Instruction::SkipIfKeyPressed { x })
        } else if byte == 0xA1 {
            Some(Instruction::SkipIfKeyReleased { x })
        } else {
            None
        }
    } else {
        if byte == 0x07 {
            Some(Instruction::ReadDelay { x })
        } else if byte == 0x0A {
            Some(Instruction::WaitKey { x })
        } else if byte == 0x15 {
            Some(Instruction::SetDelay { x })
        } else if byte == 0x18 {
            Some(Instruction::SetSound { x })
        } else if byte == 0x1E {
            Some(Instruction::AddIndex { x })
        } else if byte == 0x29 {
            Some(Instruction::Glyph { x })
        } else if byte == 0x33 {
            Some(Instruction::StoreDecimal { x })
        } else if byte == 0x55 {
            Some(Instruction::StoreRegisters { x })
        } else if byte == 0x65 {
            Some(Instruction::LoadRegisters { x })
        } else {
            None
        }
    }
}

/// Every word that decodes at all decodes to an instruction whose operands
/// are in range.
pub proof fn lemma_decoded_is_valid(op: u16)
    ensures
        decode_spec(op) matches Some(instr) ==> instr.valid(),
{
}

/// The register indices `x` and `y` held in the second and third nibble.
pub fn xy_nibbles(nibbles: (u8, u8, u8, u8)) -> (xy: (usize, usize))
    ensures
        xy.0 == nibbles.1,
        xy.1 == nibbles.2,
{
    let x = nibbles.1 as usize;
    let y = nibbles.2 as usize;
    (x, y)
}

/// Splits an instruction word into its four nibbles.
pub fn nibbles(op: u16) -> (n: (u8, u8, u8, u8))
    ensures
        n == nibbles_of(op),
        n.0 < 16 && n.1 < 16 && n.2 < 16 && n.3 < 16,
{
    let high: u8 = (op >> 8) as u8;
    let low: u8 = (op & 0xFF) as u8;
    assert(((op >> 8) as u8) >> 4 == (op / 4096) as u8) by (bit_vector);
    assert(((op >> 8) as u8) & 0xF == ((op / 256) % 16) as u8) by (bit_vector);
    assert(((op & 0xFF) as u8) >> 4 == ((op / 16) % 16) as u8) by (bit_vector);
    assert(((op & 0xFF) as u8) & 0xF == (op % 16) as u8) by (bit_vector);
    (high >> 4, high & 0xF, low >> 4, low & 0xF)
}

/// Decodes an instruction word.
///
/// A word that encodes no instruction is reported, never guessed at.
pub fn decode(op: u16) -> (r: Result<Instruction, Chip8Error>)
    ensures
        match decode_spec(op) {
            Some(instr) => r == Ok::<Instruction, Chip8Error>(instr) && instr.valid(),
            None => r == Err::<Instruction, Chip8Error>(Chip8Error::UnimplementedOpcode(op)),
        },
{
    let n = nibbles(op);
    let (x, y) = xy_nibbles(n);
    let byte: u8 = (op & 0xFF) as u8;
    let addr: u16 = op & 0xFFF;
    assert((op & 0xFF) as u8 == (op % 256) as u8) by (bit_vector);
    assert(op & 0xFFF == (op % 4096) as u16) by (bit_vector);
    assert(op == 0x0000 <==> (op / 4096 == 0 && (op / 256) % 16 == 0 && (op / 16) % 16 == 0 && op
        % 16 == 0));
    match n {
        (0x0, 0x0, 0x0, 0x0) => Ok(Instruction::Nop),
        (0x0, 0x0, 0xE, 0x0) => Ok(Instruction::ClearScreen),
        (0x0, 0x0, 0xE, 0xE) => Ok(Instruction::Return),
        (0x1, _, _, _) => Ok(Instruction::Jump { addr }),
        (0x2, _, _, _) => Ok(Instruction::Call { addr }),
        (0x3, _, _, _) => Ok(Instruction::SkipIfEqual { x, byte }),
        (0x4, _, _, _) => Ok(Instruction::SkipIfNotEqual { x, byte }),
        (0x5, _, _, 0x0) => Ok(Instruction::SkipIfRegistersEqual { x, y }),
        (0x6, _, _, _) => Ok(Instruction::Load { x, byte }),
        (0x7, _, _, _) => Ok(Instruction::AddByte { x, byte }),
        (0x8, _, _, 0x0) => Ok(Instruction::Alu { op: AluOp::Move, x, y }),
        (0x8, _, _, 0x1) => Ok(Instruction::Alu { op: AluOp::Or, x, y }),
        (0x8, _, _, 0x2) => Ok(Instruction::Alu { op: AluOp::And, x, y }),
        (0x8, _, _, 0x3) => Ok(Instruction::Alu { op: AluOp::Xor, x, y }),
        (0x8, _, _, 0x4) => Ok(Instruction::Alu { op: AluOp::Add, x, y }),
        (0x8, _, _, 0x5) => Ok(Instruction::Alu { op: AluOp::Sub, x, y }),
        (0x8, _, _, 0x6) => Ok(Instruction::Alu { op: AluOp::ShiftRight, x, y }),
        (0x8, _, _, 0x7) => Ok(Instruction::Alu { op: AluOp::SubReverse, x, y }),
        (0x8, _, _, 0x8) => Ok(Instruction::Alu { op: AluOp::ShiftLeft, x, y }),
        (0x9, _, _, 0x0) => Ok(Instruction::SkipIfRegistersDiffer { x, y }),
        (0xA, _, _, _) => Ok(Instruction::LoadIndex { addr }),
        (0xB, _, _, _) => Ok(Instruction::JumpOffset { addr }),
        (0xC, _, _, _) => Ok(Instruction::Random { x, byte }),
        (0xD, _, _, _) => Ok(Instruction::Draw { x, y, rows: n.3 }),
        (0xE, _, 0x9, 0xE) => Ok(Instruction::SkipIfKeyPressed { x }),
        (0xE, _, 0xA, 0x1) => Ok(Instruction::SkipIfKeyReleased { x }),
        (0xF, _, 0x0, 0x7) => Ok(Instruction::ReadDelay { x }),
        (0xF, _, 0x0, 0xA) => Ok(Instruction::WaitKey { x }),
        (0xF, _, 0x1, 0x5) => Ok(Instruction::SetDelay { x }),
        (0xF, _, 0x1, 0x8) => Ok(Instruction::SetSound { x }),
        (0xF, _, 0x1, 0xE) => Ok(Instruction::AddIndex { x }),
        (0xF, _, 0x2, 0x9) => Ok(Instruction::Glyph { x }),
        (0xF, _, 0x3, 0x3) => Ok(Instruction::StoreDecimal { x }),
        (0xF, _, 0x5, 0x5) => Ok(Instruction::StoreRegisters { x }),
        (0xF, _, 0x6, 0x5) => Ok(Instruction::LoadRegisters { x }),
        (_, _, _, _) => Err(Chip8Error::UnimplementedOpcode(op)),
    }
}

} // verus!
